//! Requests on releases.

use vstd::prelude::*;

use crate::api::{releases_base_url, releases_path};
use crate::structs::release::Release;
use crate::{Error, Result};

verus! {

/// The address that lists the releases of a repository.
pub fn list_releases_url(gitea_url: &str, repo: &str) -> (r: String)
    ensures
        r@ == releases_path(gitea_url@, repo@) + "/"@,
{
    let mut url = releases_base_url(gitea_url, repo);
    url.append("/");
    url
}

/// The address to which a new release is posted.
pub fn create_release_url(gitea_url: &str, repo: &str) -> (r: String)
    ensures
        r@ == releases_path(gitea_url@, repo@),
{
    releases_base_url(gitea_url, repo)
}

/// Fetches one release.
///
/// Not implemented: every call fails with `Error::Placeholder` (the error
/// reserved for unimplemented operations) in place of stopping the program,
/// so that callers can report it and go on.
pub fn get_release(id: u64) -> (r: Result<Release>)
    ensures
        r matches Err(Error::Placeholder),
{
    Err(Error::Placeholder)
}

/// Fetches the latest release.
///
/// Not implemented: every call fails with `Error::Placeholder` (the error
/// reserved for unimplemented operations) in place of stopping the program,
/// so that callers can report it and go on.
pub fn get_latest_release() -> (r: Result<Release>)
    ensures
        r matches Err(Error::Placeholder),
{
    Err(Error::Placeholder)
}

/// Edits a release.
///
/// Not implemented: every call fails with `Error::Placeholder` (the error
/// reserved for unimplemented operations) in place of stopping the program,
/// so that callers can report it and go on.
pub fn edit_release(id: u64) -> (r: Result<Release>)
    ensures
        r matches Err(Error::Placeholder),
{
    Err(Error::Placeholder)
}

/// Deletes a release.
///
/// Not implemented: every call fails with `Error::Placeholder` (the error
/// reserved for unimplemented operations) in place of stopping the program,
/// so that callers can report it and go on.
pub fn delete_release(id: u64) -> (r: Result<()>)
    ensures
        r matches Err(Error::Placeholder),
{
    Err(Error::Placeholder)
}

} // verus!
