//! Requests to the Gitea API, and the reading of its replies.

use vstd::prelude::*;

pub mod release;
pub mod release_attachment;

verus! {

/// What a reply's status code calls for.
#[derive(Debug, PartialEq, Eq, Structural)]
pub enum ReplyKind {
    /// A 2xx status: the body holds the requested record.
    Success,
    /// A 4xx status: the body holds an [`ApiError`](crate::ApiError).
    ClientError,
    /// Any other status, which the client does not handle.
    Unexpected,
}

pub open spec fn reply_kind(code: u16) -> ReplyKind {
    if 200 <= code < 300 {
        ReplyKind::Success
    } else if 400 <= code < 500 {
        ReplyKind::ClientError
    } else {
        ReplyKind::Unexpected
    }
}

/// Classifies an HTTP status code as `StatusCode::is_success` (200 to 299)
/// and `StatusCode::is_client_error` (400 to 499) do.
pub fn classify_status(code: u16) -> (r: ReplyKind)
    ensures
        r == reply_kind(code),
        200 <= code <= 299 <==> r == ReplyKind::Success,
        400 <= code <= 499 <==> r == ReplyKind::ClientError,
        (code < 200 || 300 <= code < 400 || 500 <= code) <==> r == ReplyKind::Unexpected,
{
    if 200 <= code && code < 300 {
        ReplyKind::Success
    } else if 400 <= code && code < 500 {
        ReplyKind::ClientError
    } else {
        ReplyKind::Unexpected
    }
}

/// The address of the releases of repository `repo` (`owner/name`) on the
/// server at `gitea_url`, without a trailing slash.
pub open spec fn releases_path(gitea_url: Seq<char>, repo: Seq<char>) -> Seq<char> {
    gitea_url + "/api/v1/repos/"@ + repo + "/releases"@
}

pub fn releases_base_url(gitea_url: &str, repo: &str) -> (r: String)
    ensures
        r@ == releases_path(gitea_url@, repo@),
{
    let mut url = gitea_url.to_owned();
    url.append("/api/v1/repos/");
    url.append(repo);
    url.append("/releases");
    url
}

/// Every 2xx status is a success, every 4xx status (401 and 403 included)
/// a client error, and every other status unexpected.
pub proof fn lemma_reply_kind_ranges(code: u16)
    ensures
        200 <= code <= 299 <==> reply_kind(code) == ReplyKind::Success,
        400 <= code <= 499 <==> reply_kind(code) == ReplyKind::ClientError,
        (code < 200 || 300 <= code < 400 || 500 <= code) <==> reply_kind(code)
            == ReplyKind::Unexpected,
{
}

} // verus!
