//! Releases as the Gitea API describes them.

use vstd::prelude::*;

verus! {

/// A release of a repository.
#[derive(Debug)]
pub struct Release {
    pub id: usize,
    pub tag_name: String,
    pub target_commitish: String,
    pub name: String,
    pub body: String,
    pub url: String,
    pub html_url: String,
    pub tarball_url: String,
    pub zipball_url: String,
    pub upload_url: String,
    pub draft: bool,
    pub prerelease: bool,
    pub created_at: String,
    pub published_at: String,
    pub author: Author,
}

/// The user who published a release.
#[derive(Debug)]
pub struct Author {
    pub id: usize,
    pub login: String,
    pub login_name: String,
    pub source_id: usize,
    pub full_name: String,
    pub email: String,
}

/// The body of a request that creates a release.
#[derive(Debug)]
pub struct CreateReleaseOption {
    pub body: String,
    pub draft: bool,
    pub name: String,
    pub prerelease: bool,
    pub tag_name: String,
    pub target_commitish: String,
}

/// The body of a request that edits a release.
pub struct EditReleaseOption;

} // verus!
