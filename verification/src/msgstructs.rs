use vstd::prelude::*;

verus! {

/// Query of a track upload: the folder to put the track in, and the name the
/// client gave the file, if any.
pub struct TrackUploadQuery {
    pub dir: String,
    pub fname: Option<String>,
}

/// Query naming a folder `name` inside the folder at `path`.
pub struct FolderCreateDelete {
    pub name: String,
    pub path: Vec<String>,
}

/// Query naming the folder at `path`.
pub struct FolderQuery {
    pub path: Vec<String>,
}

/// Query moving the folder at `old_path` to `new_path`.
pub struct FolderRename {
    pub old_path: Vec<String>,
    pub new_path: Vec<String>,
}

} // verus!
