use miogenes::albums::{album_position, cover_art_requests, sort_albums, title_le_exec, AlbumEntry};

fn album(id: u128, title: &str) -> AlbumEntry {
    AlbumEntry { id, title: title.into(), tracks: vec![id * 10] }
}

#[test]
fn titles_order_like_strings() {
    for (a, b) in [("a", "b"), ("b", "a"), ("", "a"), ("ab", "a"), ("Zeta", "alpha"), ("é", "z"), ("same", "same")] {
        assert_eq!(title_le_exec(a, b), a <= b, "{a} {b}");
    }
}

#[test]
fn albums_sorted_by_title() {
    let sorted = sort_albums(vec![album(1, "Ok"), album(2, "Abbey"), album(3, "Zen"), album(4, "Help")]);
    let titles: Vec<&str> = sorted.iter().map(|a| a.title.as_str()).collect();
    assert_eq!(titles, vec!["Abbey", "Help", "Ok", "Zen"]);
    let ids: Vec<u128> = sorted.iter().map(|a| a.id).collect();
    assert_eq!(ids, vec![2, 4, 1, 3]);
    assert!(sort_albums(vec![]).is_empty());
}

#[test]
fn positions_follow_the_sorted_list() {
    let sorted = sort_albums(vec![album(1, "Ok"), album(2, "Abbey"), album(3, "Zen")]);
    assert_eq!(album_position(&sorted, 2), Some(0));
    assert_eq!(album_position(&sorted, 1), Some(1));
    assert_eq!(album_position(&sorted, 3), Some(2));
    assert_eq!(album_position(&sorted, 9), None);
    let twice = vec![album(5, "a"), album(6, "b"), album(5, "c")];
    assert_eq!(album_position(&twice, 5), Some(2));
}

#[test]
fn cover_art_uses_first_track() {
    let mut empty = album(7, "none");
    empty.tracks.clear();
    let mut two = album(8, "two");
    two.tracks = vec![81, 82];
    let reqs = cover_art_requests(&vec![album(1, "x"), empty, two]);
    assert_eq!(reqs, vec![(1, 10), (8, 81)]);
}
