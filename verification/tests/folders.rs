use miogenes::error::MioInnerError;
use miogenes::folders::{
    check_dir_in_data_dir, dir_within, folder_create_target, folder_delete_target,
    folder_query_dir, folder_rename_paths, join_with_slash, track_move_target,
    track_upload_target, upload_filename, user_dir_path,
};
use miogenes::msgstructs::{FolderCreateDelete, FolderQuery, FolderRename};
use miogenes::paths::{collect_path, is_audio_file, path_components, push_path};

const USER: u128 = 0x0123_4567_89ab_cdef_0123_4567_89ab_cdef;
const USER_DIR: &str = "/data/01234567-89ab-cdef-0123-456789abcdef";

fn is_bad_path(r: Result<(), MioInnerError>) -> bool {
    matches!(r, Err(MioInnerError::ExtIoError(m, 400)) if m == "bad path")
}

fn strings(v: &[&str]) -> Vec<String> {
    v.iter().map(|s| s.to_string()).collect()
}

fn comps(p: &str) -> Vec<String> {
    path_components(p).into_iter().map(|c| c.into_iter().collect()).collect()
}

#[test]
fn components_follow_std() {
    assert_eq!(comps("/a//b/./c/"), vec!["/", "a", "b", "c"]);
    assert_eq!(comps("./a/.."), vec![".", "a", ".."]);
    assert_eq!(comps("a/./b"), vec!["a", "b"]);
    assert_eq!(comps(""), Vec::<String>::new());
    for p in ["/a//b/./c/", "./a/..", "a/./b", "", "/", "..", "x/y/"] {
        let std_comps: Vec<String> = std::path::Path::new(p)
            .components()
            .map(|c| c.as_os_str().to_string_lossy().into_owned())
            .collect();
        assert_eq!(comps(p), std_comps, "{p}");
    }
}

#[test]
fn push_follows_pathbuf() {
    for (base, seg) in [("a", "b"), ("a/", "b"), ("", "b"), ("a", "/b"), ("a", ""), ("/", "x")] {
        let mut s = base.to_string();
        push_path(&mut s, seg);
        let mut p = std::path::PathBuf::from(base);
        p.push(seg);
        assert_eq!(s, p.to_string_lossy(), "{base} + {seg}");
    }
    assert_eq!(collect_path(&strings(&["a horse", "neigh"])), "a horse/neigh");
}

#[test]
fn user_dir_holds_uuid() {
    assert_eq!(user_dir_path("/data", USER), USER_DIR);
}

#[test]
fn paths_inside_are_accepted() {
    assert!(check_dir_in_data_dir("/data", USER, "a/b", "/").is_ok());
    assert!(check_dir_in_data_dir("/data", USER, "", "/").is_ok());
    assert!(check_dir_in_data_dir("/data", USER, "a/../b", "/").is_ok());
    assert!(check_dir_in_data_dir(
        "/data",
        USER,
        "../01234567-89ab-cdef-0123-456789abcdef/x",
        "/"
    )
    .is_ok());
}

#[test]
fn paths_outside_are_refused() {
    assert!(is_bad_path(check_dir_in_data_dir("/data", USER, "..", "/")));
    assert!(is_bad_path(check_dir_in_data_dir("/data", USER, "../", "/")));
    assert!(is_bad_path(check_dir_in_data_dir("/data", USER, "a/../..", "/")));
    assert!(is_bad_path(check_dir_in_data_dir("/data", USER, "../../test_files", "/")));
    assert!(is_bad_path(check_dir_in_data_dir("/data", USER, "/etc", "/")));
    assert!(is_bad_path(check_dir_in_data_dir(
        "/data",
        USER,
        "../01234567-89ab-cdef-0123-456789abcdeff",
        "/"
    )));
}

#[test]
fn dir_within_compares_components() {
    assert!(dir_within("/a/b", "/a/b/c").is_ok());
    assert!(dir_within("/a/b", "/a/b").is_ok());
    assert!(dir_within("/a/b", "/a/bc").is_err());
    assert!(dir_within("/a/b", "/a").is_err());
}

#[test]
fn create_target_is_sanitized_child() {
    let req = FolderCreateDelete { name: "bleh".into(), path: strings(&["a horse", "neigh"]) };
    let t = folder_create_target("/data", USER, &req, "/").ok().unwrap();
    assert_eq!(t, format!("{USER_DIR}/a horse/neigh/bleh"));
    let req = FolderCreateDelete { name: "../evil".into(), path: strings(&[""]) };
    let t = folder_create_target("/data", USER, &req, "/").ok().unwrap();
    assert_eq!(t, format!("{USER_DIR}/..evil"));
    let req = FolderCreateDelete { name: "x".into(), path: strings(&[".."]) };
    assert!(folder_create_target("/data", USER, &req, "/").is_err());
}

#[test]
fn delete_target() {
    let req = FolderCreateDelete { name: "bleh".into(), path: strings(&["merasmus"]) };
    let t = folder_delete_target("/data", USER, &req, "/").ok().unwrap();
    assert_eq!(t, format!("{USER_DIR}/merasmus/bleh"));
    let req = FolderCreateDelete { name: "a".into(), path: strings(&["a", "..", ".."]) };
    assert!(folder_delete_target("/data", USER, &req, "/").is_err());
}

#[test]
fn rename_paths_are_absolutized() {
    let req = FolderRename {
        old_path: strings(&["merasmus", "neigh", "bleh"]),
        new_path: strings(&["merasmus", "bleh"]),
    };
    let (old, new) = folder_rename_paths("/data", USER, &req, "/").ok().unwrap();
    assert_eq!(old, format!("{USER_DIR}/merasmus/neigh/bleh"));
    assert_eq!(new, format!("{USER_DIR}/merasmus/bleh"));
    let req = FolderRename { old_path: strings(&["a"]), new_path: strings(&["..", ""]) };
    assert!(folder_rename_paths("/data", USER, &req, "/").is_err());
}

#[test]
fn query_dir_resolves_against_cwd() {
    let req = FolderQuery { path: strings(&["a", "b"]) };
    let (dir, name) = folder_query_dir("/data", USER, &req, USER_DIR).ok().unwrap();
    assert_eq!(dir, format!("{USER_DIR}/a/b"));
    assert_eq!(name, "b");
    assert!(folder_query_dir("/data", USER, &req, "/srv").is_err());
    let req = FolderQuery { path: vec![] };
    let (dir, name) = folder_query_dir("/data", USER, &req, USER_DIR).ok().unwrap();
    assert_eq!(dir, USER_DIR);
    assert_eq!(name, "");
}

#[test]
fn upload_and_move_targets() {
    let id: u128 = 0xa1a2a3a4_b1b2_c1c2_d1d2_d3d4d5d6d7d8;
    let t = track_upload_target("/data", USER, "music", id, "/").ok().unwrap();
    assert_eq!(t, format!("{USER_DIR}/music/a1a2a3a4-b1b2-c1c2-d1d2-d3d4d5d6d7d8"));
    assert!(track_upload_target("/data", USER, "../x", id, "/").is_err());
    let (dir, file) = track_move_target("/data", USER, &strings(&["a", "b"]), id, "/").ok().unwrap();
    assert_eq!(dir, "a/b");
    assert_eq!(file, format!("{USER_DIR}/a/b/a1a2a3a4-b1b2-c1c2-d1d2-d3d4d5d6d7d8"));
    assert_eq!(join_with_slash(&strings(&[])), "");
    assert_eq!(join_with_slash(&strings(&["x"])), "x");
}

#[test]
fn upload_filename_is_sanitized() {
    assert_eq!(upload_filename(&Some("a/b:c.mp3".into()), 1), "abc.mp3");
    assert_eq!(upload_filename(&Some("con.mp3".into()), 1), "");
    assert_eq!(upload_filename(&None, 1), "00000000-0000-0000-0000-000000000001");
}

#[test]
fn audio_files_by_extension() {
    for name in ["a.wav", "b.flac", "c.alac", "d.mp3", "e.ogg", "f.aac", "g.m4a", "x.y.mp3", "..mp3"] {
        assert!(is_audio_file(name), "{name}");
    }
    for name in ["song", "song.txt", ".mp3", "..", "mp3", "song.mp3.", "song.MP3", "song.opus", "a.mp"] {
        assert!(!is_audio_file(name), "{name}");
    }
}

#[test]
fn climbing_out_is_refused() {
    for up in ["..", "../..", "../../..", "../../../.."] {
        assert!(is_bad_path(check_dir_in_data_dir("/data", USER, up, "/srv")), "{up}");
    }
    for name in ["music", "a horse", "..."] {
        assert!(check_dir_in_data_dir("/data", USER, name, "/srv").is_ok(), "{name}");
    }
}
