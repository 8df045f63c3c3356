use miogenes::decoding::{CurrentlyDecoding, PollTaskState, Received, TrackDecoderMetaData};

fn report(curr: u128, at: u128) -> CurrentlyDecoding {
    CurrentlyDecoding { curr, at, len: 100, tracks: vec![TrackDecoderMetaData { id: curr }] }
}

#[test]
fn first_report_is_new() {
    let mut s = PollTaskState::new();
    assert_eq!(s.set_new_decoding(&report(1, 0)), (true, true));
}

#[test]
fn same_report_twice_is_not_new() {
    let mut s = PollTaskState::new();
    s.set_new_decoding(&report(1, 0));
    assert_eq!(s.set_new_decoding(&report(1, 0)), (false, false));
    assert_eq!(s.set_new_decoding(&report(1, 5)), (true, false));
    assert_eq!(s.set_new_decoding(&report(2, 5)), (true, true));
}

#[test]
fn metadata_polls() {
    let mut s = PollTaskState::new();
    assert!(!s.take_title(Received::Empty));
    assert!(s.take_title(Received::Value("song".into())));
    assert_eq!(s.title.as_deref(), Some("song"));
    assert!(s.take_album(Received::Closed));
    assert_eq!(s.album, None);
    assert!(s.take_artist(Received::Value(Some("band".into()))));
    assert_eq!(s.artist.as_deref(), Some("band"));
    assert!(s.take_cover_art(Received::Value(None)));
    s.clear_metadata();
    assert!(s.title.is_none() && s.artist.is_none());
}

#[test]
fn duplicate_and_compare() {
    let a = report(3, 4);
    let b = a.duplicate();
    assert!(a.same_as(&b));
    assert!(!a.same_as(&report(3, 5)));
}

#[test]
fn shown_metadata_marks_unknowns() {
    let mut s = PollTaskState::new();
    assert!(s.take_title(Received::Value("Song".to_string())));
    assert_eq!(s.shown_metadata(), ("Song".to_string(), "?".to_string(), "?".to_string()));
    assert!(s.take_album(Received::Value(Some("Record".to_string()))));
    assert!(s.take_artist(Received::Value(Some("Band".to_string()))));
    assert_eq!(s.shown_metadata(), ("Song".to_string(), "Record".to_string(), "Band".to_string()));
    assert!(s.take_artist(Received::Value(None)));
    assert_eq!(s.shown_metadata().2, "?");
}
