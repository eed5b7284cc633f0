//! What can go wrong while blocks are fetched.

use vstd::prelude::*;
use vstd::string::StringExecFns;

verus! {

/// An error of the fetcher. The first text says where it happened; a second
/// one, where there is one, says what was wrong.
#[derive(Debug, PartialEq, Eq)]
pub enum ReqwestTransactionsFetcherError {
    /// A text is not a URL.
    UrlParse(String, String),
    /// A request over HTTP failed.
    ReqwestError(String, String),
    /// A local file could not be read.
    IO(String, String),
    /// What was received is not a valid block.
    InvalidBlockReceived(String, String),
    /// There is no block at a URL.
    BlockNotFound(String),
    /// The fetcher has no URL to fetch from.
    NoUrlsConfigured,
}

/// What a `ReqwestTransactionsFetcherError` is, as a mathematical value.
#[verifier::ext_equal]
pub enum ErrorView {
    UrlParse(Seq<char>, Seq<char>),
    ReqwestError(Seq<char>, Seq<char>),
    IO(Seq<char>, Seq<char>),
    InvalidBlockReceived(Seq<char>, Seq<char>),
    BlockNotFound(Seq<char>),
    NoUrlsConfigured,
}

impl View for ReqwestTransactionsFetcherError {
    type V = ErrorView;

    open spec fn view(&self) -> ErrorView {
        match *self {
            ReqwestTransactionsFetcherError::UrlParse(url, error) => ErrorView::UrlParse(
                url@,
                error@,
            ),
            ReqwestTransactionsFetcherError::ReqwestError(url, error) => ErrorView::ReqwestError(
                url@,
                error@,
            ),
            ReqwestTransactionsFetcherError::IO(path, error) => ErrorView::IO(path@, error@),
            ReqwestTransactionsFetcherError::InvalidBlockReceived(url, reason) => {
                ErrorView::InvalidBlockReceived(url@, reason@)
            },
            ReqwestTransactionsFetcherError::BlockNotFound(url) => ErrorView::BlockNotFound(url@),
            ReqwestTransactionsFetcherError::NoUrlsConfigured => ErrorView::NoUrlsConfigured,
        }
    }
}

/// The sentence that describes an error to a user.
pub open spec fn error_message(error: ErrorView) -> Seq<char> {
    match error {
        ErrorView::UrlParse(url, error) => "Url parse error on "@ + url + ": "@ + error,
        ErrorView::ReqwestError(url, error) => "reqwest error on "@ + url + ": "@ + error,
        ErrorView::IO(path, error) => "IO error on "@ + path + ": "@ + error,
        ErrorView::InvalidBlockReceived(url, reason) => "Received an invalid block from "@ + url
            + ": "@ + reason,
        ErrorView::BlockNotFound(url) => "Block not found at "@ + url,
        ErrorView::NoUrlsConfigured => "No URLs configured."@,
    }
}

impl ReqwestTransactionsFetcherError {
    /// An HTTP error that names the URL it happened on, or the empty text
    /// where it names none.
    pub fn from_reqwest_error(url: Option<&str>, error: &str) -> (r: Self)
        ensures
            r@ == ErrorView::ReqwestError(
                match url {
                    Some(url) => url@,
                    None => Seq::empty(),
                },
                error@,
            ),
    {
        let url = match url {
            Some(url) => url.to_owned(),
            None => String::new(),
        };
        ReqwestTransactionsFetcherError::ReqwestError(url, error.to_owned())
    }

    /// The sentence that describes this error to a user.
    pub fn message(&self) -> (text: String)
        ensures
            text@ == error_message(self@),
    {
        match self {
            ReqwestTransactionsFetcherError::UrlParse(url, error) => sentence(
                "Url parse error on ",
                url.as_str(),
                error.as_str(),
            ),
            ReqwestTransactionsFetcherError::ReqwestError(url, error) => sentence(
                "reqwest error on ",
                url.as_str(),
                error.as_str(),
            ),
            ReqwestTransactionsFetcherError::IO(path, error) => sentence(
                "IO error on ",
                path.as_str(),
                error.as_str(),
            ),
            ReqwestTransactionsFetcherError::InvalidBlockReceived(url, reason) => sentence(
                "Received an invalid block from ",
                url.as_str(),
                reason.as_str(),
            ),
            ReqwestTransactionsFetcherError::BlockNotFound(url) => {
                let mut text = "Block not found at ".to_owned();
                text.append(url.as_str());
                text
            },
            ReqwestTransactionsFetcherError::NoUrlsConfigured => "No URLs configured.".to_owned(),
        }
    }
}

fn sentence(start: &str, place: &str, reason: &str) -> (text: String)
    ensures
        text@ == start@ + place@ + ": "@ + reason@,
{
    let mut text = start.to_owned();
    text.append(place);
    text.append(": ");
    text.append(reason);
    text
}

/// Every message names the place, and then, where there is one, the reason: what
/// went wrong can be told from the words before, and place and reason are there
/// as they are.
pub proof fn every_message_names_place_and_reason(place: Seq<char>, reason: Seq<char>)
    ensures
        error_message(ErrorView::UrlParse(place, reason)) == "Url parse error on "@ + place + ": "@
            + reason,
        error_message(ErrorView::ReqwestError(place, reason)) == "reqwest error on "@ + place
            + ": "@ + reason,
        error_message(ErrorView::IO(place, reason)) == "IO error on "@ + place + ": "@ + reason,
        error_message(ErrorView::InvalidBlockReceived(place, reason))
            == "Received an invalid block from "@ + place + ": "@ + reason,
        error_message(ErrorView::BlockNotFound(place)) == "Block not found at "@ + place,
        error_message(ErrorView::NoUrlsConfigured) == "No URLs configured."@,
{
}

} // verus!
