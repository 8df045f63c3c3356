use base64::prelude::{Engine, BASE64_URL_SAFE_NO_PAD};
use miogenes::auth::{basic_auth_header, needs_refresh, JWT};

#[test]
fn token_text_round_trips() {
    let t = JWT::from_raw("a.b.c".to_string());
    assert_eq!(t.to_string(), "a.b.c");
}

#[test]
fn payload_is_second_section() {
    assert_eq!(JWT::from_raw("a.bb.c".into()).payload().as_deref(), Some("bb"));
    assert_eq!(JWT::from_raw("a..c".into()).payload().as_deref(), Some(""));
    assert_eq!(JWT::from_raw("abc".into()).payload(), None);
}

#[test]
fn whois_decodes_payload() {
    let claims = br#"{"userid":"00000000-0000-0000-0000-000000000001","exp":5}"#;
    let tok = format!("x.{}.y", BASE64_URL_SAFE_NO_PAD.encode(claims));
    assert_eq!(JWT::from_raw(tok).whois_bytes().ok(), Some(claims.to_vec()));
    assert_eq!(JWT::from_raw("nodots".into()).whois_bytes().err().as_deref(), Some("no payload to decode"));
    assert!(JWT::from_raw("a.aaaaa.aaaaaaaaaaaaaaa".into()).whois_bytes().is_err());
}

#[test]
fn refresh_within_twelve_hours() {
    assert!(needs_refresh(1000, 1000));
    assert!(needs_refresh(43199 + 1000, 1000));
    assert!(!needs_refresh(43200 + 1000, 1000));
}

#[test]
fn basic_header_encodes_credentials() {
    let h = basic_auth_header("user", "pass");
    assert_eq!(h, format!("Basic {}", BASE64_URL_SAFE_NO_PAD.encode("user:pass")));
    let decoded = BASE64_URL_SAFE_NO_PAD.decode(&h["Basic ".len()..]).unwrap();
    assert_eq!(decoded, b"user:pass");
}
