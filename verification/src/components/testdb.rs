use vstd::prelude::*;
use crate::random::{new_uuid_text, uuid_text};

verus! {

/// A folder row.
#[derive(Debug, Clone)]
pub struct Folder {
    pub id: String,
    pub parent_id: Option<String>,
    pub name: String,
}

/// A fresh id for a new folder.
pub fn new_folder_id() -> (r: String)
    ensures
        uuid_text(r@),
{
    new_uuid_text()
}

/// The last ten folders (all of them if there are fewer), in order.
pub fn last_folders(folders: Vec<Folder>) -> (r: Vec<Folder>)
    ensures
        r@ == folders@.subrange(
            folders@.len() - (if folders@.len() < 10 { folders@.len() as int } else { 10int }),
            folders@.len() as int,
        ),
{
    let n = folders.len();
    let keep = if n < 10 { n } else { 10 };
    let mut folders = folders;
    folders.split_off(n - keep)
}

} // verus!
