//! Requests on the files attached to a release.

use vstd::prelude::*;

use crate::api::{releases_base_url, releases_path};
use crate::text::{decimal, push_decimal, split_at_char, split_on, lemma_split_on_nonempty};

verus! {

/// The address to which files are attached to release `release_id`.
pub fn release_assets_url(gitea_url: &str, repo: &str, release_id: usize) -> (r: String)
    ensures
        r@ == releases_path(gitea_url@, repo@) + "/"@ + decimal(release_id as nat) + "/assets"@,
{
    let mut url = releases_base_url(gitea_url, repo);
    url.append("/");
    push_decimal(&mut url, release_id);
    url.append("/assets");
    url
}

/// The name under which a file is uploaded: the last `/`-separated
/// component of its path (all of it when there is no `/`).
pub fn attachment_name(file: &str) -> (r: String)
    ensures
        r@ == split_on(file@, '/').last(),
{
    let pieces = split_at_char(file, '/');
    proof {
        lemma_split_on_nonempty(file@, '/');
    }
    pieces[pieces.len() - 1].clone()
}

pub fn check_release_match_repo() {
}

pub fn get_release_attachment() {
}

/// Lists the files of a release.
///
/// Not implemented: a call does nothing and returns, in place of stopping
/// the program.
pub fn list_release_attachments() {
}

pub fn edit_release_attachment() {
}

pub fn delete_release_attachment() {
}

} // verus!
