use miogenes::error::MioInnerError;
use miogenes::ids::uuid_string;
use miogenes::listing::{
    folder_listing, folder_tree_node, tree_dir_names, EntryKind, FolderQueryItem,
    FolderQueryItemType, ListedEntry,
};

fn file(name: &str) -> ListedEntry {
    ListedEntry { name: Ok(name.to_string()), kind: EntryKind::File }
}

fn dir(name: &str) -> ListedEntry {
    ListedEntry { name: Ok(name.to_string()), kind: EntryKind::Dir }
}

fn leaf(id: &str, item_type: FolderQueryItemType) -> (String, FolderQueryItemType, bool) {
    (id.to_string(), item_type, true)
}

fn flatten(items: &[FolderQueryItem]) -> Vec<(String, FolderQueryItemType, bool)> {
    items.iter().map(|i| (i.id.clone(), i.item_type, i.tree.is_none())).collect()
}

fn internal_message(r: Result<FolderQueryItem, MioInnerError>) -> String {
    match r {
        Err(MioInnerError::IntIoError(m)) => m,
        _ => panic!("expected an internal io error"),
    }
}

#[test]
fn listing_keeps_files_and_folders_in_order() {
    let entries = vec![
        file("67e55044-10b1-426f-9247-bb680e5fe0c8"),
        dir("covers"),
        ListedEntry { name: Ok("socket".into()), kind: EntryKind::Other },
        file("67E5504410B1426F9247BB680E5FE0C8"),
        file("{67e55044-10b1-426f-9247-bb680e5fe0c8}"),
        file("URN:uuid:67e55044-10b1-426f-9247-bb680e5fe0c8"),
    ];
    let item = folder_listing("music".into(), &entries).unwrap();
    assert_eq!(item.id, "music");
    assert_eq!(item.item_type, FolderQueryItemType::Folder);
    assert_eq!(
        flatten(item.tree.as_ref().unwrap()),
        vec![
            leaf("67e55044-10b1-426f-9247-bb680e5fe0c8", FolderQueryItemType::Audio),
            leaf("covers", FolderQueryItemType::Folder),
            leaf("67E5504410B1426F9247BB680E5FE0C8", FolderQueryItemType::Audio),
            leaf("{67e55044-10b1-426f-9247-bb680e5fe0c8}", FolderQueryItemType::Audio),
            leaf("URN:uuid:67e55044-10b1-426f-9247-bb680e5fe0c8", FolderQueryItemType::Audio),
        ]
    );
    let empty = folder_listing(String::new(), &vec![]).unwrap();
    assert_eq!(empty.tree.map(|t| t.len()), Some(0));
}

#[test]
fn listing_refuses_files_that_are_not_uuids() {
    for bad in [
        "song.mp3",
        "67e55044-10b1-426f-9247-bb680e5fe0c",
        "67e55044x10b1-426f-9247-bb680e5fe0c8",
        "67e55044-10b1-426f-9247-bb680e5fe0cg",
        "urn:uuix:67e55044-10b1-426f-9247-bb680e5fe0c8",
        "[67e55044-10b1-426f-9247-bb680e5fe0c8]",
    ] {
        let m = internal_message(folder_listing("x".into(), &vec![dir("ok"), file(bad)]));
        assert_eq!(m, "internal file name is not a uuid: failed to parse a UUID", "{bad}");
    }
}

#[test]
fn listing_refuses_names_that_are_not_utf8() {
    let bad_file = ListedEntry { name: Err("a\u{fffd}b".into()), kind: EntryKind::File };
    let bad_dir = ListedEntry { name: Err("c\u{fffd}".into()), kind: EntryKind::Dir };
    assert_eq!(
        internal_message(folder_listing("x".into(), &vec![bad_file, file("nope")])),
        "could not convert internal file name into string to become uuid: name is a\u{fffd}b"
    );
    assert_eq!(
        internal_message(folder_listing("x".into(), &vec![bad_dir])),
        "could not convert internal folder name into string: dir name is c\u{fffd}"
    );
    let odd = ListedEntry { name: Err("d\u{fffd}".into()), kind: EntryKind::Other };
    assert!(folder_listing("x".into(), &vec![odd]).is_ok());
}

#[test]
fn tree_nodes_are_named_after_their_path() {
    let leafless = folder_tree_node("", vec![]);
    assert_eq!(leafless.id, "");
    assert!(leafless.tree.is_none());
    assert_eq!(leafless.item_type, FolderQueryItemType::Folder);
    let child = folder_tree_node("a horse/neigh", vec![]);
    assert_eq!(child.id, "neigh");
    let parent = folder_tree_node("a horse", vec![child]);
    assert_eq!(parent.id, "a horse");
    assert_eq!(parent.tree.as_ref().map(|t| t[0].id.clone()), Some("neigh".to_string()));
    assert_eq!(folder_tree_node("a/..", vec![]).id, "");
    assert_eq!(folder_tree_node("a/b/", vec![]).id, "b");
    assert_eq!(folder_tree_node("/", vec![]).id, "");
}

#[test]
fn tree_steps_descend_into_folders() {
    let entries = vec![dir("b"), file("not checked here"), dir("a")];
    assert_eq!(tree_dir_names(&entries).unwrap(), vec!["b".to_string(), "a".to_string()]);
    let bad = vec![dir("b"), ListedEntry { name: Err("z\u{fffd}".into()), kind: EntryKind::Dir }];
    match tree_dir_names(&bad) {
        Err(MioInnerError::IntIoError(m)) => {
            assert_eq!(m, "the file \"z\u{fffd}\" could not be converted to a string")
        }
        _ => panic!("expected an internal io error"),
    }
}

#[test]
fn uploaded_track_names_are_listed() {
    for v in [0u128, 1, u128::MAX, 0x67e55044_10b1_426f_9247_bb680e5fe0c8] {
        let name = uuid_string(v);
        let item = folder_listing("d".into(), &vec![file(&name)]).unwrap();
        assert_eq!(
            flatten(item.tree.as_ref().unwrap()),
            vec![leaf(&name, FolderQueryItemType::Audio)]
        );
    }
}
