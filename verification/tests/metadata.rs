use miogenes::metadata::{
    catalog_step, catalog_steps, get_metadata, hash, pad_samples, spectrogram_window, step_target,
    track_row, CatalogStep, Metadata, TagInfo,
};
use sha2::{Digest, Sha256};

fn tag() -> TagInfo {
    TagInfo {
        title: None,
        artist: None,
        artist_sort: None,
        album: None,
        album_sort: None,
        disk: None,
        track: None,
        picture: None,
    }
}

#[test]
fn hash_is_sha256() {
    let h = hash(b"abc");
    assert_eq!(h[0], 0xba);
    assert_eq!(h[31], 0xad);
    assert_eq!(h.to_vec(), Sha256::digest(b"abc").to_vec());
}

#[test]
fn no_tags_keeps_file_name() {
    let m = get_metadata(&"song.flac".to_string(), &vec![]);
    assert_eq!(m.title, "song.flac");
    assert!(m.artist.is_none() && m.album.is_none() && m.img.is_none());
    assert_eq!(m.disk_track, (None, None));
}

#[test]
fn first_tag_wins() {
    let mut a = tag();
    a.title = Some("Title A".into());
    a.artist = Some("Artist A".into());
    a.track = Some(3);
    let mut b = tag();
    b.title = Some("Title B".into());
    b.artist = Some("Artist B".into());
    b.album = Some("Album B".into());
    b.disk = Some(1);
    b.track = Some(9);
    b.picture = Some(vec![1, 2, 3]);
    let m = get_metadata(&"f.mp3".to_string(), &vec![a, b]);
    assert_eq!(m.title, "Title A");
    assert_eq!(m.artist.as_deref(), Some("Artist A"));
    assert_eq!(m.album.as_deref(), Some("Album B"));
    assert_eq!(m.disk_track, (Some(1), Some(3)));
    let (pic, h) = m.img.unwrap();
    assert_eq!(pic, vec![1, 2, 3]);
    assert_eq!(h.to_vec(), Sha256::digest([1u8, 2, 3]).to_vec());
}

#[test]
fn title_equal_to_file_name_is_replaced_later() {
    let mut a = tag();
    a.title = Some("f.mp3".into());
    let mut b = tag();
    b.title = Some("Real".into());
    let m = get_metadata(&"f.mp3".to_string(), &vec![a, b]);
    assert_eq!(m.title, "Real");
}

#[test]
fn short_tracks_are_padded() {
    let p = pad_samples(&vec![1, 2, 3], 2);
    assert_eq!(p, vec![1, 2, 3, 0, 0, 0, 0, 0, 0, 0]);
    let long: Vec<i16> = (0..12).collect();
    assert_eq!(pad_samples(&long, 2), long);
}

#[test]
fn window_choice() {
    assert_eq!(spectrogram_window(100), (0, 110250));
    assert_eq!(spectrogram_window(22050 * 8), (0, 110250));
    assert_eq!(spectrogram_window(22050 * 9), (66150, 66150 + 110250));
}

#[test]
fn catalog_entries_are_reused_or_inserted() {
    assert_eq!(catalog_step(false, None, 9), CatalogStep::Absent);
    assert_eq!(catalog_step(true, Some(4), 9), CatalogStep::Reuse(4));
    assert_eq!(catalog_step(true, None, 9), CatalogStep::Insert(9));
    assert_eq!(step_target(CatalogStep::Absent), None);
    assert_eq!(step_target(CatalogStep::Reuse(4)), Some(4));
    assert_eq!(step_target(CatalogStep::Insert(9)), Some(9));
}

#[test]
fn catalog_steps_for_cover_artist_album() {
    let steps = catalog_steps(&vec![true, true, false], &vec![Some(5), None, None], &vec![7, 8, 9]);
    assert_eq!(steps, vec![CatalogStep::Reuse(5), CatalogStep::Insert(8), CatalogStep::Absent]);
    let meta = Metadata {
        title: "Song".into(),
        artist: Some("Band".into()),
        artist_sort: None,
        album: None,
        album_sort: None,
        img: None,
        disk_track: (Some(1), Some(4)),
    };
    let row = track_row(42, 3, "music".into(), &meta, "song.flac".into(), steps[0], steps[1], steps[2]);
    assert_eq!((row.id, row.owner, row.path.as_str(), row.title.as_str()), (42, 3, "music", "Song"));
    assert_eq!((row.disk, row.track, row.orig_fname.as_str()), (Some(1), Some(4), "song.flac"));
    assert_eq!((row.cover_art, row.artist, row.album), (Some(5), Some(8), None));
}
