use miogenes::env::{parse_port, var_to_bool};
use miogenes::error::MioInnerError;
use miogenes::server::{
    chunk_failure, create_dir_error, delete_check, keep_stored_secret, rename_checks, secret_wait,
    stream_read_error, SecretRead,
};

#[test]
fn boolean_settings() {
    for w in ["true", "yes", "y", "1"] {
        assert_eq!(var_to_bool(w), Some(true));
    }
    for w in ["false", "no", "n", "0"] {
        assert_eq!(var_to_bool(w), Some(false));
    }
    assert_eq!(var_to_bool("TRUE"), None);
    assert_eq!(var_to_bool(""), None);
}

#[test]
fn secret_refresh_wait() {
    assert_eq!(secret_wait(None), 0);
    assert_eq!(secret_wait(Some(5)), 5);
    assert_eq!(secret_wait(Some(604_800_000_000_000)), 604_800_000_000_000);
    assert_eq!(secret_wait(Some(604_800_000_000_001)), 0);
}

#[test]
fn stored_secret_kept_only_when_complete() {
    assert!(keep_stored_secret(SecretRead::Read(1024), 1024));
    assert!(!keep_stored_secret(SecretRead::Read(10), 1024));
    assert!(!keep_stored_secret(SecretRead::UnexpectedEof, 1024));
}

#[test]
fn rename_checks_in_order() {
    assert!(matches!(rename_checks(false, false, true, "o".into(), "n".into()), Err(MioInnerError::NotFound(m)) if m == "o"));
    assert!(matches!(rename_checks(true, false, true, "o".into(), "n".into()), Err(MioInnerError::ExtIoError(m, 400)) if m == "the directory specified is not a directory"));
    assert!(matches!(rename_checks(true, true, true, "o".into(), "n".into()), Err(MioInnerError::Conflict(m)) if m == "n"));
    assert!(rename_checks(true, true, false, "o".into(), "n".into()).is_ok());
}

#[test]
fn create_and_delete_errors() {
    assert!(matches!(create_dir_error(true, "a".into(), "io".into()), MioInnerError::Conflict(m) if m == "a"));
    assert!(matches!(create_dir_error(false, "a".into(), "io".into()), MioInnerError::IntIoError(m) if m == "io"));
    assert!(delete_check(false, "\"x\"").is_ok());
    assert!(matches!(delete_check(true, "\"x\""), Err(MioInnerError::ExtIoError(m, 400)) if m == "Directory \"x\" has items, please remove them."));
}

#[test]
fn chunk_failures_are_bad_requests() {
    let e = chunk_failure(true, "ignored");
    assert_eq!(e.status_code(), 400);
    assert_eq!(e.msg(), "failed to stream chunk: upload timeout hit");
    let e = chunk_failure(false, "connection reset");
    assert_eq!(e.status_code(), 400);
    assert_eq!(e.msg(), "failed to stream chunk: chunk streaming error: connection reset");
}

#[test]
fn stream_read_errors() {
    let id = 0x67e55044_10b1_426f_9247_bb680e5fe0c8u128;
    let user = 1u128;
    match stream_read_error(true, id, user, "x".into()) {
        MioInnerError::NotFound(m) => assert_eq!(
            m,
            "67e55044-10b1-426f-9247-bb680e5fe0c8 under 00000000-0000-0000-0000-000000000001 does not exist, despite the db saying it exists."
        ),
        _ => panic!("expected not found"),
    }
    match stream_read_error(false, id, user, "disk on fire".into()) {
        MioInnerError::IntIoError(m) => assert_eq!(m, "disk on fire"),
        _ => panic!("expected io error"),
    }
}

#[test]
fn ports_parse_like_u16() {
    for s in ["0", "80", "8080", "65535", "+443", "007", "", "+", "-1", "65536", "99999999999", "8o", " 80", "++1"] {
        assert_eq!(parse_port(s), s.parse::<u16>().ok(), "{s:?}");
    }
    assert_eq!(parse_port("+443"), Some(443));
    assert_eq!(parse_port("65536"), None);
}
