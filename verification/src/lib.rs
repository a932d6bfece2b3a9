//! Library side of a command-line client for the Gitea release API:
//! configuration lookup, request construction and the decisions taken on
//! the server's replies.

use reqwest::Error as ReqwestError;
use vstd::prelude::*;

pub mod api;
pub mod cli;
pub mod commands;
pub mod config;
pub mod document;
pub mod structs;
pub mod text;

verus! {

#[verifier::external_type_specification]
#[verifier::external_body]
pub struct ExReqwestError(ReqwestError);

/// The message body of a rejected request.
#[derive(Debug)]
pub struct ApiError {
    pub message: String,
    pub url: String,
}

/// Why a command failed.
#[derive(Debug)]
pub enum Error {
    Placeholder,
    WrappedReqwestErr(ReqwestError),
    WrappedConfigErr(config::Error),
    MissingAuthToken,
    MissingGiteaUrl,
    MissingRepoFRQN,
    NoSuchFile,
    NoSuchRelease,
    ApiErrorMessage(ApiError),
}

impl From<ReqwestError> for Error {
    fn from(value: ReqwestError) -> (r: Self) {
        Self::WrappedReqwestErr(value)
    }
}

impl vstd::std_specs::convert::FromSpecImpl<ReqwestError> for Error {
    open spec fn obeys_from_spec() -> bool {
        true
    }

    open spec fn from_spec(v: ReqwestError) -> Error {
        Error::WrappedReqwestErr(v)
    }
}

pub type Result<T> = core::result::Result<T, Error>;

} // verus!
