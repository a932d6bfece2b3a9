//! The records exchanged with the Gitea API.

use vstd::prelude::*;

pub mod release;

verus! {

/// A file attached to a release.
#[derive(Debug)]
pub struct Attachment {
    pub id: usize,
    pub name: String,
    pub size: i64,
    pub download_count: i64,
    pub created: String,
    pub uuid: String,
    pub download_url: String,
}

} // verus!
