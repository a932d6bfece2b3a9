//! The command line: global options and the subcommands.

use vstd::prelude::*;

verus! {

/// Options given on the command line (or through their environment
/// variables).
#[derive(Debug)]
pub struct Args {
    pub gitea_url: Option<String>,
    pub owner: Option<String>,
    pub repo: Option<String>,
    pub project: Option<String>,
    pub command: Commands,
}

/// The subcommands.
#[derive(Debug)]
pub enum Commands {
    ListReleases,
    CreateRelease {
        body: String,
        draft: bool,
        name: String,
        tag_name: String,
        target_commitish: String,
    },
    UploadRelease {
        tag_name: String,
        files: Vec<String>,
    },
}

} // verus!
