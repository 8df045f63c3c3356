use miogenes::error::{LogLevel, MioInnerError};

#[test]
fn external_messages_are_shown() {
    assert_eq!(MioInnerError::NotFound("gone".into()).msg(), "gone");
    assert_eq!(MioInnerError::Conflict("taken".into()).msg(), "taken");
    assert_eq!(MioInnerError::ExtIoError("bad path".into(), 400).msg(), "bad path");
    assert_eq!(MioInnerError::UserChallengedFail("no".into(), 401).msg(), "no");
}

#[test]
fn internal_messages_are_hidden() {
    assert_eq!(
        MioInnerError::IntIoError("secret detail".into()).msg(),
        "The server encountered an filesystem io error. Please check the server log."
    );
    assert_eq!(
        MioInnerError::Panicked("x".into()).msg(),
        "The server encountered an error it could not handle. Please check the server log."
    );
    assert_eq!(
        MioInnerError::DbError("y".into()).msg(),
        "The server encountered an internal database error. Please check server log."
    );
}

#[test]
fn status_codes() {
    assert_eq!(MioInnerError::NotFound("".into()).status_code(), 404);
    assert_eq!(MioInnerError::Conflict("".into()).status_code(), 409);
    assert_eq!(MioInnerError::DbError("".into()).status_code(), 500);
    assert_eq!(MioInnerError::IntIoError("".into()).status_code(), 500);
    assert_eq!(MioInnerError::Panicked("".into()).status_code(), 500);
    assert_eq!(MioInnerError::ExtIoError("".into(), 400).status_code(), 400);
    assert_eq!(MioInnerError::UserCreationFail("".into(), 409).status_code(), 409);
    assert_eq!(MioInnerError::TrackProcessingError("".into(), 415).status_code(), 415);
}

#[test]
fn log_levels() {
    assert_eq!(MioInnerError::NotFound("".into()).log_level(), LogLevel::Debug);
    assert_eq!(MioInnerError::UserChallengedFail("".into(), 401).log_level(), LogLevel::Info);
    assert_eq!(MioInnerError::TrackProcessingError("".into(), 400).log_level(), LogLevel::Warn);
    assert_eq!(MioInnerError::UserCreationFail("".into(), 500).log_level(), LogLevel::Error);
}
