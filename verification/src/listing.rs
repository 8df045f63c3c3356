use vstd::prelude::*;
use crate::error::MioInnerError;
use crate::ids::{parsed_uuid, uuid_parse_error_text, uuid_try_parse};
use crate::paths::{components, path_components, views};
use crate::text::string_of;

verus! {

/// What an entry of a folder answer is: a track file or a folder.
#[derive(Clone, Copy, PartialEq, Eq, Structural, Debug)]
pub enum FolderQueryItemType {
    Audio,
    Folder,
}

/// An entry of a folder answer: its name (a track's id, or a folder's name),
/// its kind, and the entries below it when a folder has any.
pub struct FolderQueryItem {
    pub tree: Option<Vec<FolderQueryItem>>,
    pub id: String,
    pub item_type: FolderQueryItemType,
}

/// The kind of a directory entry on disk.
#[derive(Clone, Copy, PartialEq, Eq, Structural, Debug)]
pub enum EntryKind {
    File,
    Dir,
    Other,
}

/// A directory entry as it was read: its name, or the lossy text of a name that
/// is not UTF-8, and its kind.
pub struct ListedEntry {
    pub name: Result<String, String>,
    pub kind: EntryKind,
}

/// The message of the error an entry raises when a folder is listed, if any:
/// a file needs a UTF-8 name that is a UUID, a folder a UTF-8 name.
pub open spec fn entry_error(e: ListedEntry) -> Option<Seq<char>> {
    match e.kind {
        EntryKind::File => match e.name {
            Err(l) => Some(
                "could not convert internal file name into string to become uuid: name is "@ + l@,
            ),
            Ok(n) => if parsed_uuid(n@) is Some {
                None
            } else {
                Some("internal file name is not a uuid: "@ + uuid_parse_error_text())
            },
        },
        EntryKind::Dir => match e.name {
            Err(l) => Some("could not convert internal folder name into string: dir name is "@ + l@),
            Ok(_) => None,
        },
        EntryKind::Other => None,
    }
}

/// Whether entry `k` is the first that raises an error.
pub open spec fn first_error_at(es: Seq<ListedEntry>, k: int) -> bool {
    &&& 0 <= k < es.len()
    &&& entry_error(es[k]) is Some
    &&& forall|j: int| 0 <= j < k ==> entry_error(#[trigger] es[j]) is None
}

/// The name and kind of each file and folder among the entries, in order.
pub open spec fn listed(es: Seq<ListedEntry>) -> Seq<(Seq<char>, FolderQueryItemType)>
    decreases es.len(),
{
    if es.len() == 0 {
        Seq::empty()
    } else {
        let rest = listed(es.drop_last());
        let e = es.last();
        match (e.kind, e.name) {
            (EntryKind::File, Ok(n)) => rest.push((n@, FolderQueryItemType::Audio)),
            (EntryKind::Dir, Ok(n)) => rest.push((n@, FolderQueryItemType::Folder)),
            _ => rest,
        }
    }
}

/// Whether the items are leaves with the given names and kinds.
pub open spec fn leaves_are(items: Seq<FolderQueryItem>, want: Seq<(Seq<char>, FolderQueryItemType)>) -> bool {
    &&& items.len() == want.len()
    &&& forall|i: int|
        0 <= i < items.len() ==> {
            &&& (#[trigger] items[i]).tree is None
            &&& items[i].id@ == want[i].0
            &&& items[i].item_type == want[i].1
        }
}

/// The answer to a folder listing: the folder `name` holding an entry for each
/// track file and folder read from disk, in the order they were read. The
/// first entry that is not UTF-8, or a file whose name is no UUID, makes it an
/// internal error instead.
pub fn folder_listing(name: String, entries: &Vec<ListedEntry>) -> (res: Result<FolderQueryItem, MioInnerError>)
    ensures
        res is Err <==> exists|k: int| first_error_at(entries@, k),
        res matches Err(e) ==> exists|k: int|
            first_error_at(entries@, k) && (e matches MioInnerError::IntIoError(m) && m@
                == entry_error(entries@[k]).unwrap()),
        res matches Ok(item) ==> {
            &&& item.id@ == name@
            &&& item.item_type == FolderQueryItemType::Folder
            &&& item.tree matches Some(t) && leaves_are(t@, listed(entries@))
        },
{
    let mut items: Vec<FolderQueryItem> = Vec::new();
    let mut i: usize = 0;
    while i < entries.len()
        invariant
            i <= entries@.len(),
            forall|j: int| 0 <= j < i ==> entry_error(#[trigger] entries@[j]) is None,
            leaves_are(items@, listed(entries@.subrange(0, i as int))),
        decreases entries@.len() - i,
    {
        let e = &entries[i];
        assert(entries@.subrange(0, i + 1).drop_last() == entries@.subrange(0, i as int));
        assert(entries@.subrange(0, i + 1).last() == entries@[i as int]);
        match e.kind {
            EntryKind::File => match &e.name {
                Err(l) => {
                    let mut m = String::from_str(
                        "could not convert internal file name into string to become uuid: name is ",
                    );
                    m.append(l.as_str());
                    assert(first_error_at(entries@, i as int));
                    return Err(MioInnerError::IntIoError(m));
                },
                Ok(n) => {
                    match uuid_try_parse(n.as_str()) {
                        Ok(_) => {},
                        Err(err) => {
                            let mut m = String::from_str("internal file name is not a uuid: ");
                            m.append(err.as_str());
                            assert(first_error_at(entries@, i as int));
                            return Err(MioInnerError::IntIoError(m));
                        },
                    }
                    items.push(
                        FolderQueryItem {
                            tree: None,
                            id: n.clone(),
                            item_type: FolderQueryItemType::Audio,
                        },
                    );
                },
            },
            EntryKind::Dir => match &e.name {
                Err(l) => {
                    let mut m = String::from_str(
                        "could not convert internal folder name into string: dir name is ",
                    );
                    m.append(l.as_str());
                    assert(first_error_at(entries@, i as int));
                    return Err(MioInnerError::IntIoError(m));
                },
                Ok(n) => {
                    items.push(
                        FolderQueryItem {
                            tree: None,
                            id: n.clone(),
                            item_type: FolderQueryItemType::Folder,
                        },
                    );
                },
            },
            EntryKind::Other => {},
        }
        i = i + 1;
    }
    assert(entries@.subrange(0, entries@.len() as int) == entries@);
    assert forall|k: int| !first_error_at(entries@, k) by {
        if 0 <= k < entries@.len() {
            assert(entry_error(entries@[k]) is None);
        }
    }
    Ok(FolderQueryItem { tree: Some(items), id: name, item_type: FolderQueryItemType::Folder })
}

/// The name `Path::file_name` gives a path: its last component when that is a
/// name, else nothing (given as the empty name).
pub open spec fn file_name_of(p: Seq<char>) -> Seq<char> {
    let c = components(p);
    if c.len() == 0 || c.last() == seq!['/'] || c.last() == seq!['.'] || c.last() == seq!['.', '.'] {
        Seq::empty()
    } else {
        c.last()
    }
}

/// A folder of the folder tree: named after the last component of its path
/// below the user's directory, holding its sub-folders when it has any.
pub fn folder_tree_node(curr_path: &str, children: Vec<FolderQueryItem>) -> (res: FolderQueryItem)
    ensures
        res.item_type == FolderQueryItemType::Folder,
        res.id@ == file_name_of(curr_path@),
        children@.len() == 0 ==> res.tree is None,
        children@.len() > 0 ==> (res.tree matches Some(t) && t@ == children@),
{
    let comps = path_components(curr_path);
    let ghost c = components(curr_path@);
    assert(views(comps@) == c);
    let id = if comps.len() == 0 {
        String::new()
    } else {
        let last = &comps[comps.len() - 1];
        assert(c.last() == last@);
        if (last.len() == 1 && (last[0] == '/' || last[0] == '.')) || (last.len() == 2 && last[0]
            == '.' && last[1] == '.') {
            assert(last@ == seq!['/'] || last@ == seq!['.'] || last@ == seq!['.', '.']);
            String::new()
        } else {
            assert(last@ != seq!['/'] && last@ != seq!['.'] && last@ != seq!['.', '.']);
            string_of(last)
        }
    };
    let tree = if children.len() == 0 {
        None
    } else {
        Some(children)
    };
    FolderQueryItem { tree, id, item_type: FolderQueryItemType::Folder }
}

/// The names of the folders among the entries, in order.
pub open spec fn dir_names(es: Seq<ListedEntry>) -> Seq<Seq<char>>
    decreases es.len(),
{
    if es.len() == 0 {
        Seq::empty()
    } else {
        let rest = dir_names(es.drop_last());
        match (es.last().kind, es.last().name) {
            (EntryKind::Dir, Ok(n)) => rest.push(n@),
            _ => rest,
        }
    }
}

/// Whether entry `k` is the first folder whose name is not UTF-8.
pub open spec fn first_bad_dir_at(es: Seq<ListedEntry>, k: int) -> bool {
    &&& 0 <= k < es.len()
    &&& es[k].kind == EntryKind::Dir && es[k].name is Err
    &&& forall|j: int| 0 <= j < k ==> !((#[trigger] es[j]).kind == EntryKind::Dir && es[j].name is Err)
}

/// The sub-folders a step of the folder tree descends into: the names of the
/// folders among the entries, in order. A folder whose name is not UTF-8 makes
/// it an internal error naming that folder.
pub fn tree_dir_names(entries: &Vec<ListedEntry>) -> (res: Result<Vec<String>, MioInnerError>)
    ensures
        res is Err <==> exists|k: int| first_bad_dir_at(entries@, k),
        res matches Err(e) ==> exists|k: int|
            first_bad_dir_at(entries@, k) && (entries@[k].name matches Err(l) && e matches MioInnerError::IntIoError(m)
                && m@ == "the file \""@ + l@ + "\" could not be converted to a string"@),
        res matches Ok(v) ==> v.deep_view() == dir_names(entries@),
{
    let mut names: Vec<String> = Vec::new();
    let mut i: usize = 0;
    while i < entries.len()
        invariant
            i <= entries@.len(),
            forall|j: int|
                0 <= j < i ==> !((#[trigger] entries@[j]).kind == EntryKind::Dir && entries@[j].name is Err),
            names.deep_view() == dir_names(entries@.subrange(0, i as int)),
        decreases entries@.len() - i,
    {
        let e = &entries[i];
        assert(entries@.subrange(0, i + 1).drop_last() == entries@.subrange(0, i as int));
        assert(entries@.subrange(0, i + 1).last() == entries@[i as int]);
        if e.kind == EntryKind::Dir {
            match &e.name {
                Err(l) => {
                    let mut m = String::from_str("the file \"");
                    m.append(l.as_str());
                    m.append("\" could not be converted to a string");
                    assert(first_bad_dir_at(entries@, i as int));
                    return Err(MioInnerError::IntIoError(m));
                },
                Ok(n) => {
                    let ghost before = names.deep_view();
                    names.push(n.clone());
                    assert(names.deep_view() == before.push(n@));
                },
            }
        }
        i = i + 1;
    }
    assert(entries@.subrange(0, entries@.len() as int) == entries@);
    assert forall|k: int| !first_bad_dir_at(entries@, k) by {
        if 0 <= k < entries@.len() {
            assert(!(entries@[k].kind == EntryKind::Dir && entries@[k].name is Err));
        }
    }
    Ok(names)
}

} // verus!
