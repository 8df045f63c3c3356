use miogenes::client::{album_track_line, error_body_text, rewrap_status, track_prefix, validate_signup};

#[test]
fn signup_form_checks() {
    assert_eq!(validate_signup("", "a", "a").err().as_deref(), Some("No field may be empty."));
    assert_eq!(validate_signup("u", "", "").err().as_deref(), Some("No field may be empty."));
    assert_eq!(validate_signup("u", "a", "b").err().as_deref(), Some("The passwords do not match."));
    assert!(validate_signup("u", "a", "a").is_ok());
}

#[test]
fn status_messages() {
    assert_eq!(rewrap_status(404, "no album", &vec![404]), "no album");
    assert_eq!(
        rewrap_status(401, "expired", &vec![404]),
        "The key failed to be used, please re-login: expired"
    );
    assert_eq!(rewrap_status(500, "boom", &vec![]), "INTERNAL SERVER ERROR: boom");
    assert_eq!(
        rewrap_status(418, "teapot", &vec![400, 409]),
        "The server returned an unexpected error code 418: teapot"
    );
    assert_eq!(rewrap_status(409, "taken", &vec![400, 409]), "taken");
}

#[test]
fn body_messages() {
    assert_eq!(error_body_text(Err("eof".into()), Ok("x".into())), "Error could not be decoded: eof");
    assert_eq!(error_body_text(Ok("{}".into()), Ok("bad path".into())), "bad path");
    assert_eq!(
        error_body_text(Ok("nope".into()), Err("expected value".into())),
        "Error message could not be extracted: expected value. Original message: nope"
    );
}

#[test]
fn track_prefixes() {
    assert_eq!(track_prefix(Some(1), None), "");
    assert_eq!(track_prefix(None, Some(4)), "4. ");
    assert_eq!(track_prefix(Some(2), Some(11)), "2-11. ");
}

#[test]
fn album_track_lines() {
    assert_eq!(album_track_line(Some(1), Some(3), "Song", &Some("Band".into())), "1-3. Song - Band");
    assert_eq!(album_track_line(None, Some(3), "Song", &None), "3. Song - ?");
    assert_eq!(album_track_line(Some(2), None, "Song", &None), "Song - ?");
}
