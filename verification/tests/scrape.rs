use miogenes::scrape::{
    csv_line, page_offsets, playlist_filter, playlist_tracks, search_step_after_error, sort_pages,
    PlaylistItem, PlaylistRef, SearchStep,
    TrackPage,
};

#[test]
fn pages_cover_the_playlist() {
    assert_eq!(page_offsets(0), vec![0]);
    assert_eq!(page_offsets(49), vec![0]);
    assert_eq!(page_offsets(50), vec![0, 50]);
    assert_eq!(page_offsets(120), vec![0, 50, 100]);
}

fn pl(id: &str, owner: Option<&str>) -> PlaylistRef {
    PlaylistRef { id: id.into(), owner: owner.map(|o| o.into()) }
}

#[test]
fn filter_skips_spotify_and_seen() {
    let mut seen = vec!["old".to_string()];
    let page = vec![pl("a", Some("me")), pl("b", Some("Spotify")), pl("old", None), pl("a", None), pl("c", None)];
    let got = playlist_filter(&mut seen, &page);
    assert_eq!(got, vec!["a", "c"]);
    assert_eq!(seen, vec!["old", "a", "c"]);
}

#[test]
fn csv_only_for_long_playlists() {
    let short: Vec<String> = (0..8).map(|i| format!("t{i}")).collect();
    assert_eq!(csv_line("p", &short), None);
    let long: Vec<String> = (0..9).map(|i| format!("t{i}")).collect();
    assert_eq!(csv_line("p", &long).as_deref(), Some("p,t0,t1,t2,t3,t4,t5,t6,t7,t8\n"));
}

fn item(id: Option<&str>, is_track: bool, has_preview: bool) -> PlaylistItem {
    PlaylistItem { is_track, id: id.map(String::from), has_preview }
}

fn page(offset: u32, items: Option<Vec<PlaylistItem>>) -> TrackPage {
    TrackPage { offset, items }
}

#[test]
fn pages_gathered_in_offset_order() {
    let pages = vec![
        page(100, Some(vec![item(Some("e"), true, true)])),
        page(0, Some(vec![
            item(Some("a"), true, true),
            item(Some("episode"), false, true),
            item(None, true, true),
            item(Some("nopreview"), true, false),
            item(Some("b"), true, true),
        ])),
        page(50, Some(vec![item(Some("c"), true, true), item(Some("d"), true, true)])),
    ];
    let sorted = sort_pages(pages);
    assert_eq!(sorted.iter().map(|p| p.offset).collect::<Vec<_>>(), vec![0, 50, 100]);
    assert_eq!(
        playlist_tracks(&sorted),
        Some(vec!["a".to_string(), "b".into(), "c".into(), "d".into(), "e".into()])
    );
    assert_eq!(playlist_tracks(&vec![]), Some(vec![]));
}

#[test]
fn failed_page_skips_playlist() {
    let pages = vec![
        page(0, Some(vec![item(Some("a"), true, true)])),
        page(50, None),
        page(100, Some(vec![item(Some("b"), true, true)])),
    ];
    assert_eq!(playlist_tracks(&pages), None);
}

#[test]
fn search_errors() {
    assert_eq!(search_step_after_error(true, 350), SearchStep::NextTerm);
    assert_eq!(search_step_after_error(true, 300), SearchStep::Stop);
    assert_eq!(search_step_after_error(true, 0), SearchStep::Stop);
    assert_eq!(search_step_after_error(false, 1000), SearchStep::NextPage);
}
