use vstd::prelude::*;

verus! {

/// Answer of a folder query: paths or track ids, depending on the query.
pub struct FolderQuery {
    pub ret: Vec<String>,
}

} // verus!
