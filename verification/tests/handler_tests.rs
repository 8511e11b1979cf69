use gauth::auth::{authorize, create_api_key};
use gauth::config::Config;
use gauth::totp::verify_code;
use gauth::error::{AuthError, ConfigError};
use gauth::handler::{handle_request, handle_request_at, validate_params, ApiRequest, ApiResponse, Endpoint};
use gauth::store::{is_unique_violation, DB};
use google_authenticator::{ErrorCorrectionLevel, GoogleAuthenticator};

const NOW: u64 = 1_700_000_000;
const KEY: &str = "testkey123";

fn setup() -> (DB, Config) {
    let mut db = DB::new();
    db.add_api_key("svc.example.com", KEY).unwrap();
    let cfg = Config::new(20, 200, 200).unwrap();
    (db, cfg)
}

fn request(endpoint: Endpoint, ident: Option<&str>) -> ApiRequest {
    ApiRequest {
        endpoint,
        api_key: Some(KEY.to_string()),
        ident: ident.map(|s| s.to_string()),
        code: None,
        name: None,
        title: None,
    }
}

#[test]
fn end_to_end_create_then_verify() {
    let (mut db, cfg) = setup();

    // Create "svc-a" with a 20-byte secret: the response carries a
    // 32-character base32 secret.
    let r = handle_request_at(&mut db, &cfg, &request(Endpoint::Create, Some("svc-a")), NOW);
    let secret = match r {
        ApiResponse::Created { ident, secret } => {
            assert_eq!(ident, "svc-a");
            assert_eq!(secret.len(), 32);
            secret
        },
        other => panic!("expected Created, got {}", name_of(&other)),
    };

    // A code computed for the current step verifies.
    let code = GoogleAuthenticator::new().get_code(&secret, NOW / 30).unwrap();
    let mut req = request(Endpoint::Verify, Some("svc-a"));
    req.code = Some(code);
    match handle_request_at(&mut db, &cfg, &req, NOW) {
        ApiResponse::VerifyOutcome { verified } => assert!(verified),
        other => panic!("expected VerifyOutcome, got {}", name_of(&other)),
    }

    // A code computed an hour earlier does not, with zero tolerance.
    let stale = GoogleAuthenticator::new().get_code(&secret, (NOW - 3600) / 30).unwrap();
    let mut req = request(Endpoint::Verify, Some("svc-a"));
    req.code = Some(stale);
    match handle_request_at(&mut db, &cfg, &req, NOW) {
        ApiResponse::VerifyOutcome { verified } => assert!(!verified),
        other => panic!("expected VerifyOutcome, got {}", name_of(&other)),
    }
}

#[test]
fn end_to_end_duplicate_create() {
    let (mut db, cfg) = setup();

    let first = handle_request_at(&mut db, &cfg, &request(Endpoint::Create, Some("dup")), NOW);
    let first_secret = match first {
        ApiResponse::Created { secret, .. } => secret,
        other => panic!("expected Created, got {}", name_of(&other)),
    };

    let second = handle_request_at(&mut db, &cfg, &request(Endpoint::Create, Some("dup")), NOW);
    match second {
        ApiResponse::Failed { message } => {
            assert_eq!(message, "Database error: duplicate entry");
        },
        other => panic!("expected Failed, got {}", name_of(&other)),
    }

    // Exactly the one original record remains for "dup".
    let (_, stored) = db.get_secret("dup").unwrap();
    assert_eq!(stored, first_secret);
    db.delete_secret("dup").unwrap();
    assert!(db.get_secret("dup").is_err());
}

#[test]
fn auth_failures_are_distinct_but_uniform() {
    let (mut db, cfg) = setup();

    // Distinct inside the authorizer.
    let missing = authorize(&db, None);
    let unknown_key = "wrongkey".to_string();
    let invalid = authorize(&db, Some(&unknown_key));
    assert_eq!(missing, Err(AuthError::Missing));
    assert_eq!(invalid, Err(AuthError::Invalid));

    // Uniform at the surface: same status, same message.
    let mut no_key = request(Endpoint::Create, Some("x"));
    no_key.api_key = None;
    let mut bad_key = request(Endpoint::Create, Some("x"));
    bad_key.api_key = Some("wrongkey".to_string());

    let ra = handle_request_at(&mut db, &cfg, &no_key, NOW);
    let rb = handle_request_at(&mut db, &cfg, &bad_key, NOW);
    let (ha, ma) = match ra {
        ApiResponse::Rejected { http_status, error } => (http_status, error.message().clone()),
        other => panic!("expected Rejected, got {}", name_of(&other)),
    };
    let (hb, mb) = match rb {
        ApiResponse::Rejected { http_status, error } => (http_status, error.message().clone()),
        other => panic!("expected Rejected, got {}", name_of(&other)),
    };
    assert_eq!(ha, 400);
    assert_eq!((ha, &ma), (hb, &mb));
    assert_eq!(ma, "Invalid api key");

    // Nothing was created along the way.
    assert!(db.get_secret("x").is_err());
}

#[test]
fn missing_parameters_are_rejected() {
    let (mut db, cfg) = setup();

    match handle_request_at(&mut db, &cfg, &request(Endpoint::Create, None), NOW) {
        ApiResponse::Rejected { http_status, error } => {
            assert_eq!(http_status, 400);
            assert_eq!(error.message().as_str(), "Request parameters missing");
        },
        other => panic!("expected Rejected, got {}", name_of(&other)),
    }

    // Verify with an ident but no code is also incomplete.
    match handle_request_at(&mut db, &cfg, &request(Endpoint::Verify, Some("a")), NOW) {
        ApiResponse::Rejected { http_status, .. } => assert_eq!(http_status, 400),
        other => panic!("expected Rejected, got {}", name_of(&other)),
    }
}

#[test]
fn verify_unknown_ident_fails_as_invalid_identity() {
    let (mut db, cfg) = setup();
    let mut req = request(Endpoint::Verify, Some("ghost"));
    req.code = Some("123456".to_string());
    match handle_request_at(&mut db, &cfg, &req, NOW) {
        ApiResponse::Failed { message } => assert_eq!(message, "Invalid identity"),
        other => panic!("expected Failed, got {}", name_of(&other)),
    }
}

#[test]
fn qr_url_matches_renderer() {
    let (mut db, cfg) = setup();
    handle_request_at(&mut db, &cfg, &request(Endpoint::Create, Some("qr-ident")), NOW);
    let (_, secret) = db.get_secret("qr-ident").unwrap();

    let mut req = request(Endpoint::QrUrl, Some("qr-ident"));
    req.name = Some("name x".to_string());
    req.title = Some("title y".to_string());
    let expected = GoogleAuthenticator::new().qr_code_url(
        &secret,
        "name x",
        "title y",
        200,
        200,
        ErrorCorrectionLevel::Medium,
    );
    match handle_request_at(&mut db, &cfg, &req, NOW) {
        ApiResponse::QrUrl { qr_code_url } => assert_eq!(qr_code_url, expected),
        other => panic!("expected QrUrl, got {}", name_of(&other)),
    }
}

#[test]
fn qr_svg_matches_renderer() {
    let (mut db, cfg) = setup();
    handle_request_at(&mut db, &cfg, &request(Endpoint::Create, Some("qr-svg")), NOW);
    let (_, secret) = db.get_secret("qr-svg").unwrap();

    let mut req = request(Endpoint::Qr, Some("qr-svg"));
    req.name = Some("acme".to_string());
    req.title = Some("2fa".to_string());
    let expected = GoogleAuthenticator::new()
        .qr_code(&secret, "acme", "2fa", 200, 200, ErrorCorrectionLevel::Medium)
        .unwrap();
    match handle_request_at(&mut db, &cfg, &req, NOW) {
        ApiResponse::QrSvg { qr_code } => assert_eq!(qr_code, expected),
        other => panic!("expected QrSvg, got {}", name_of(&other)),
    }
}

#[test]
fn delete_endpoint_is_idempotent() {
    let (mut db, cfg) = setup();
    handle_request_at(&mut db, &cfg, &request(Endpoint::Create, Some("gone")), NOW);
    let r1 = handle_request_at(&mut db, &cfg, &request(Endpoint::Delete, Some("gone")), NOW);
    let r2 = handle_request_at(&mut db, &cfg, &request(Endpoint::Delete, Some("gone")), NOW);
    assert!(matches!(r1, ApiResponse::Deleted));
    assert!(matches!(r2, ApiResponse::Deleted));
    assert!(db.get_secret("gone").is_err());
}

#[test]
fn config_validation_reports_first_offender() {
    assert_eq!(Config::new(0, 200, 200), Err(ConfigError::BadSecretLen));
    assert_eq!(Config::new(256, 200, 200), Err(ConfigError::BadSecretLen));
    assert_eq!(Config::new(20, 0, 200), Err(ConfigError::BadWidth));
    assert_eq!(Config::new(20, 200, 0), Err(ConfigError::BadHeight));
    // The renderer's 32-bit size arithmetic adds up to 185 to a dimension:
    // the top of the u32 range is refused, the last safe value accepted.
    assert_eq!(Config::new(20, u32::MAX as u64, 200), Err(ConfigError::BadWidth));
    assert_eq!(Config::new(20, (u32::MAX - 100) as u64, 200), Err(ConfigError::BadWidth));
    assert_eq!(Config::new(20, 200, u32::MAX as u64), Err(ConfigError::BadHeight));
    assert!(Config::new(20, (u32::MAX - 184) as u64, (u32::MAX - 184) as u64).is_ok());
    let cfg = Config::new(20, 300, 400).unwrap();
    assert_eq!((cfg.secret_len, cfg.width, cfg.height), (20, 300, 400));
}

#[test]
fn validate_params_checks_presence() {
    let all: [Option<u32>; 3] = [Some(1), Some(2), Some(3)];
    assert!(validate_params(&all).is_ok());
    let one_missing: [Option<u32>; 3] = [Some(1), None, Some(3)];
    let err = validate_params(&one_missing).unwrap_err();
    assert_eq!(err.message(), "Request parameters missing");
    let empty: [Option<u32>; 0] = [];
    assert!(validate_params(&empty).is_ok());
}

#[test]
fn create_api_key_binds_fresh_key() {
    let mut db = DB::new();
    let key = create_api_key(&mut db, "op.example.com").unwrap();
    assert_eq!(key.len(), 32);
    assert!(key.chars().all(|c| c.is_ascii_alphanumeric()));
    assert!(db.api_key_exists(&key));
    assert_eq!(db.get_host_for_api_key(&key).unwrap(), "op.example.com");
}

fn name_of(r: &ApiResponse) -> &'static str {
    match r {
        ApiResponse::Created { .. } => "Created",
        ApiResponse::Deleted => "Deleted",
        ApiResponse::VerifyOutcome { .. } => "VerifyOutcome",
        ApiResponse::QrSvg { .. } => "QrSvg",
        ApiResponse::QrUrl { .. } => "QrUrl",
        ApiResponse::Failed { .. } => "Failed",
        ApiResponse::Rejected { .. } => "Rejected",
    }
}

#[test]
fn handle_request_against_wall_clock() {
    let (mut db, cfg) = setup();
    handle_request_at(&mut db, &cfg, &request(Endpoint::Create, Some("live")), NOW);

    // Deletion does not depend on the clock, whatever it reads.
    let r = handle_request(&mut db, &cfg, &request(Endpoint::Delete, Some("live")));
    assert!(matches!(r, ApiResponse::Deleted));
}

#[test]
fn verify_code_against_wall_clock() {
    let secret = gauth::totp::generate_secret(20);
    let now = std::time::SystemTime::now()
        .duration_since(std::time::UNIX_EPOCH)
        .unwrap()
        .as_secs();
    let code = GoogleAuthenticator::new().get_code(&secret, now / 30).unwrap();
    // One window of tolerance covers a step boundary crossed between the
    // two readings.
    assert!(verify_code(&secret, &code, 1));
    let stale = GoogleAuthenticator::new().get_code(&secret, now / 30 - 120).unwrap();
    assert!(!verify_code(&secret, &stale, 0) || stale == code);
}

#[test]
fn unique_violation_code_is_recognized() {
    assert!(is_unique_violation("23505"));
    assert!(!is_unique_violation("23503"));
    assert!(!is_unique_violation(""));
}
