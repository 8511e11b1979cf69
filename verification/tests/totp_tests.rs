use gauth::base32::base32_encode;
use gauth::totp::{constant_time_eq, generate_secret, verify_code_at};
use google_authenticator::GoogleAuthenticator;

const SECRET: &str = "I3VFM3JKMNDJCDH5BMBEEQAW6KJ6NOE3";
const SLICE: u64 = 1523610659 / 30;

#[test]
fn base32_rfc4648_vectors() {
    assert_eq!(base32_encode(&b"".to_vec()), "");
    assert_eq!(base32_encode(&b"f".to_vec()), "MY");
    assert_eq!(base32_encode(&b"fo".to_vec()), "MZXQ");
    assert_eq!(base32_encode(&b"foo".to_vec()), "MZXW6");
    assert_eq!(base32_encode(&b"foob".to_vec()), "MZXW6YQ");
    assert_eq!(base32_encode(&b"fooba".to_vec()), "MZXW6YTB");
    assert_eq!(base32_encode(&b"foobar".to_vec()), "MZXW6YTBOI");
}

#[test]
fn base32_mask_vectors() {
    assert_eq!(base32_encode(&vec![0xF8, 0x3E, 0x7F, 0x83, 0xE7]), "7A7H7A7H");
    assert_eq!(base32_encode(&vec![0x77, 0xC1, 0xF7, 0x7C, 0x1F]), "O7A7O7A7");
    assert_eq!(base32_encode(&vec![0xF8, 0x3E, 0x7F, 0x83]), "7A7H7AY");
}

#[test]
fn current_window_code_verifies() {
    let code = GoogleAuthenticator::new().get_code(SECRET, SLICE).unwrap();
    assert!(verify_code_at(SECRET, &code, 0, SLICE));
}

#[test]
fn distant_window_code_fails() {
    // An hour is 120 steps of 30 seconds: far outside a zero tolerance.
    let old_code = GoogleAuthenticator::new().get_code(SECRET, SLICE - 120).unwrap();
    assert!(!verify_code_at(SECRET, &old_code, 0, SLICE));
}

#[test]
fn tolerance_window_bounds() {
    let g = GoogleAuthenticator::new();
    let prev = g.get_code(SECRET, SLICE - 1).unwrap();
    let next = g.get_code(SECRET, SLICE + 1).unwrap();
    let far = g.get_code(SECRET, SLICE + 2).unwrap();
    assert!(verify_code_at(SECRET, &prev, 1, SLICE));
    assert!(verify_code_at(SECRET, &next, 1, SLICE));
    assert!(!verify_code_at(SECRET, &far, 1, SLICE));
    assert!(!verify_code_at(SECRET, &prev, 0, SLICE));
}

#[test]
fn undecodable_secret_never_verifies() {
    // '0' and '1' are not base32 characters, so no code can be derived.
    let code = GoogleAuthenticator::new().get_code(SECRET, SLICE).unwrap();
    assert!(!verify_code_at("0101010101010101", &code, 3, SLICE));
    // Too short for the deriver, even though it decodes.
    assert!(!verify_code_at("ABCDEFGH", &code, 3, SLICE));
}

#[test]
fn generated_secret_shape() {
    let s = generate_secret(20);
    assert_eq!(s.len(), 32);
    assert!(s.chars().all(|c| ('A'..='Z').contains(&c) || ('2'..='7').contains(&c)));

    // 12 bytes do not fill the last five-byte group: the tail stays
    // unpadded, one character per five bits.
    let t = generate_secret(12);
    assert_eq!(t.len(), 20);
    assert!(!t.contains('='));
}

#[test]
fn generated_secret_round_trips_through_verification() {
    let s = generate_secret(20);
    let code = GoogleAuthenticator::new().get_code(&s, SLICE).unwrap();
    assert!(verify_code_at(&s, &code, 0, SLICE));
}

#[test]
fn constant_time_eq_matches_equality() {
    assert!(constant_time_eq("123456", "123456"));
    assert!(!constant_time_eq("123456", "123457"));
    assert!(!constant_time_eq("123456", "12345"));
    assert!(!constant_time_eq("023456", "123456"));
    assert!(constant_time_eq("", ""));
}

#[test]
fn largest_configurable_secret() {
    // The longest secret the configuration admits: 255 bytes fill 51
    // five-byte groups exactly.
    let s = generate_secret(255);
    assert_eq!(s.len(), 408);
    let max_dim = (u32::MAX - 184) as u64;
    assert!(gauth::config::Config::new(255, max_dim, max_dim).is_ok());
}
