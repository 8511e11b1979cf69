use gauth::error::{CreateError, KeyStoreError, LookupError};
use gauth::store::DB;

fn _test_setup() -> DB {
    DB::new()
}

fn _test_cleanup(_conn: &mut DB) {
    // The store lives in memory; dropping it releases everything.
}

#[test]
fn test_connection() {
    let mut conn = _test_setup();
    _test_cleanup(&mut conn);
}

#[test]
fn test_secrets() {
    let mut conn = _test_setup();

    let ident = "test_ident";
    let secret = "abc123";

    let res = conn.create_secret(ident, secret);
    if let Err(e) = res {
        panic!("Error: {:?}", e);
    }
    assert!(res.is_ok());

    let (id, token) = conn.get_secret(ident).unwrap();
    assert_eq!(token, secret);

    let (ret_ident, ret_token) = conn.get_secret_by_id(id).unwrap();
    assert_eq!(ret_ident, ident);
    assert_eq!(ret_token, secret);

    let res = conn.delete_secret(ident);

    assert!(res.is_ok());

    let res = conn.get_secret(ident);

    assert!(res.is_err());

    _test_cleanup(&mut conn);
}

#[test]
fn test_api_key() {
    let mut conn = _test_setup();
    let host = "test.example.com";
    let api_key = "abc12345";

    let res = conn.add_api_key(host, api_key);
    assert!(res.is_ok());

    assert!(conn.api_key_exists(api_key));

    let res = conn.get_host_for_api_key(api_key);

    assert!(res.is_ok());
    assert_eq!(res.unwrap(), host.to_string());

    _test_cleanup(&mut conn);
}

#[test]
fn duplicate_ident_is_distinguished() {
    let mut conn = DB::new();
    conn.create_secret("dup", "FIRSTSECRET").unwrap();
    let second = conn.create_secret("dup", "SECONDSECRET");
    assert_eq!(second, Err(CreateError::DuplicateIdent));

    // The original record is untouched.
    let (_, token) = conn.get_secret("dup").unwrap();
    assert_eq!(token, "FIRSTSECRET");
}

#[test]
fn delete_missing_ident_succeeds() {
    let mut conn = DB::new();
    conn.create_secret("kept", "KEEPME").unwrap();
    assert!(conn.delete_secret("never-created").is_ok());

    // No other record was altered.
    let (_, token) = conn.get_secret("kept").unwrap();
    assert_eq!(token, "KEEPME");
}

#[test]
fn lookup_missing_ident_fails_not_found() {
    let conn = DB::new();
    assert_eq!(conn.get_secret("nobody"), Err(LookupError::NotFound));
    assert_eq!(conn.get_secret_by_id(7), Err(LookupError::NotFound));
}

#[test]
fn duplicate_api_key_is_rejected() {
    let mut conn = DB::new();
    conn.add_api_key("a.example.com", "samekey").unwrap();
    let second = conn.add_api_key("b.example.com", "samekey");
    assert_eq!(second, Err(KeyStoreError::DuplicateKey));

    // The first binding survives.
    assert_eq!(conn.get_host_for_api_key("samekey").unwrap(), "a.example.com");
}

#[test]
fn unknown_api_key_is_absent() {
    let conn = DB::new();
    assert!(!conn.api_key_exists("nope"));
    assert!(conn.get_host_for_api_key("nope").is_err());
}

#[test]
fn invalid_req_body_carries_its_message() {
    let e = gauth::error::InvalidReqBody::new("anything at all");
    assert_eq!(e.message().as_str(), "anything at all");
}
