//! From a URL to the bytes behind it, and from the bytes to what they hold.
//! The transfer itself is the caller's; what is decided here is where to read
//! from and what each outcome means.

use crate::archive_url::{ArchiveUrl, UrlView};
use crate::error::{ErrorView, ReqwestTransactionsFetcherError};
use crate::text::same_text;
use vstd::prelude::*;
use vstd::string::StringExecFns;

verus! {

/// The status of a response that says that there is nothing at a URL.
pub const NOT_FOUND: u16 = 404;

/// Where the bytes behind a URL are read from.
#[derive(Debug, PartialEq, Eq)]
pub enum FetchSource {
    /// A local file, by its path.
    File(String),
    /// A server, by the URL to ask for.
    Http(String),
}

/// What a `FetchSource` is, as a mathematical value.
#[verifier::ext_equal]
pub enum FetchSourceView {
    File(Seq<char>),
    Http(Seq<char>),
}

impl View for FetchSource {
    type V = FetchSourceView;

    open spec fn view(&self) -> FetchSourceView {
        match *self {
            FetchSource::File(path) => FetchSourceView::File(path@),
            FetchSource::Http(url) => FetchSourceView::Http(url@),
        }
    }
}

/// Where the bytes behind `url` are read from: URLs with the scheme `file` name
/// a local file, all others are asked for over HTTP.
pub open spec fn fetch_source_of(url: UrlView) -> FetchSourceView {
    if url.scheme == "file"@ {
        FetchSourceView::File(url.host_and_path)
    } else {
        FetchSourceView::Http(url.text)
    }
}

/// Says where the bytes behind `url` are read from.
pub fn fetch_source(url: &ArchiveUrl) -> (source: FetchSource)
    ensures
        source@ == fetch_source_of(url@),
        match source {
            FetchSource::File(path) => url.scheme@ == "file"@ && path@ == url.host_and_path@,
            FetchSource::Http(text) => url.scheme@ != "file"@ && text@ == url.text@,
        },
{
    if same_text(url.scheme.as_str(), "file") {
        FetchSource::File(url.host_and_path.clone())
    } else {
        FetchSource::Http(url.text.clone())
    }
}

/// Bytes, or the error, as a mathematical value.
pub open spec fn bytes_result(r: Result<Vec<u8>, ReqwestTransactionsFetcherError>) -> Result<
    Seq<u8>,
    ErrorView,
> {
    match r {
        Ok(bytes) => Ok(bytes@),
        Err(error) => Err(error@),
    }
}

/// What reading the local file of a URL gave.
pub fn file_bytes(url: &ArchiveUrl, read: Result<Vec<u8>, String>) -> (r: Result<
    Vec<u8>,
    ReqwestTransactionsFetcherError,
>)
    ensures
        bytes_result(r) == match read {
            Ok(bytes) => Ok::<_, ErrorView>(bytes@),
            Err(error) => Err(ErrorView::IO(url@.host_and_path, error@)),
        },
{
    match read {
        Ok(bytes) => Ok(bytes),
        Err(error) => Err(
            ReqwestTransactionsFetcherError::IO(url.host_and_path.clone(), error),
        ),
    }
}

/// A response over HTTP.
#[derive(Debug)]
pub struct HttpResponse {
    /// Its status.
    pub status: u16,
    /// Its body. Read only where the status does not say that there is nothing.
    pub body: Result<Vec<u8>, BodyError>,
}

/// Why the body of a response could not be read.
#[derive(Debug)]
pub struct BodyError {
    /// The URL that the error names.
    pub url: Option<String>,
    /// What was wrong.
    pub error: String,
}

/// What the body of a response that was read holds, or the error.
pub open spec fn body_bytes(body: Result<Vec<u8>, BodyError>) -> Result<Seq<u8>, ErrorView> {
    match body {
        Ok(bytes) => Ok(bytes@),
        Err(error) => Err(
            ErrorView::ReqwestError(
                match error.url {
                    Some(url) => url@,
                    None => Seq::empty(),
                },
                error.error@,
            ),
        ),
    }
}

/// What the answer to a request for `url` means.
pub open spec fn http_result(url: Seq<char>, response: Result<HttpResponse, String>) -> Result<
    Seq<u8>,
    ErrorView,
> {
    match response {
        Err(error) => Err(ErrorView::ReqwestError(url, error@)),
        Ok(response) => if response.status == NOT_FOUND {
            Err(ErrorView::BlockNotFound(url))
        } else {
            body_bytes(response.body)
        },
    }
}

/// What asking for a URL over HTTP gave.
pub fn http_bytes(url: &ArchiveUrl, response: Result<HttpResponse, String>) -> (r: Result<
    Vec<u8>,
    ReqwestTransactionsFetcherError,
>)
    ensures
        bytes_result(r) == http_result(url@.text, response),
        match r {
            Ok(bytes) => {
                &&& response is Ok
                &&& response->Ok_0.status != 404
                &&& response->Ok_0.body is Ok
                &&& bytes@ == response->Ok_0.body->Ok_0@
            },
            Err(error) => match response {
                Err(failure) => error@ == ErrorView::ReqwestError(url.text@, failure@),
                Ok(response) => if response.status == 404 {
                    error@ == ErrorView::BlockNotFound(url.text@)
                } else {
                    response.body is Err && error@ is ReqwestError
                },
            },
        },
{
    match response {
        Err(error) => Err(
            ReqwestTransactionsFetcherError::ReqwestError(url.text.clone(), error),
        ),
        Ok(response) => {
            if response.status == NOT_FOUND {
                return Err(ReqwestTransactionsFetcherError::BlockNotFound(url.text.clone()));
            }
            match response.body {
                Ok(bytes) => Ok(bytes),
                Err(body_error) => {
                    let error = body_error.error;
                    match &body_error.url {
                        Some(url) => Err(
                            ReqwestTransactionsFetcherError::from_reqwest_error(
                                Some(url.as_str()),
                                error.as_str(),
                            ),
                        ),
                        None => Err(
                            ReqwestTransactionsFetcherError::from_reqwest_error(
                                None,
                                error.as_str(),
                            ),
                        ),
                    }
                },
            }
        },
    }
}

/// What reading the bytes behind a URL as a message gave.
pub fn parsed_object<M>(url: &ArchiveUrl, parsed: Result<M, String>) -> (r: Result<
    M,
    ReqwestTransactionsFetcherError,
>)
    ensures
        match parsed {
            Ok(object) => r == Ok::<_, ReqwestTransactionsFetcherError>(object),
            Err(error) => r is Err && r->Err_0@ == ErrorView::InvalidBlockReceived(
                url@.text,
                "protobuf parse failed: "@ + error@,
            ),
        },
{
    match parsed {
        Ok(object) => Ok(object),
        Err(error) => {
            let mut reason = "protobuf parse failed: ".to_owned();
            reason.append(error.as_str());
            Err(
                ReqwestTransactionsFetcherError::InvalidBlockReceived(url.text.clone(), reason),
            )
        },
    }
}

/// A local file is read if and only if the scheme is `file`: every other URL,
/// whatever its scheme, is asked for as a whole.
pub proof fn only_file_urls_are_read_from_disk(url: UrlView)
    ensures
        fetch_source_of(url) is File <==> url.scheme == seq!['f', 'i', 'l', 'e'],
        url.scheme == seq!['f', 'i', 'l', 'e'] ==> fetch_source_of(url) == FetchSourceView::File(
            url.host_and_path,
        ),
        url.scheme != seq!['f', 'i', 'l', 'e'] ==> fetch_source_of(url) == FetchSourceView::Http(
            url.text,
        ),
{
    reveal_strlit("file");
    assert("file"@ =~= seq!['f', 'i', 'l', 'e']);
}

/// What is asked for over HTTP depends on the scheme only in that it is not
/// `file`, and on no other part of the URL than its text.
pub proof fn the_whole_url_is_asked_for(url: UrlView, other: UrlView)
    requires
        url.scheme != "file"@,
        other.scheme != "file"@,
        url.text == other.text,
    ensures
        fetch_source_of(url) == fetch_source_of(other),
        fetch_source_of(url) == FetchSourceView::Http(other.text),
{
}

/// The body of an answer is handed on as it came, whatever its status, but for
/// the one that says that there is nothing: then that is reported, with the URL
/// that was asked for.
pub proof fn the_body_is_handed_on(url: Seq<char>, response: HttpResponse)
    ensures
        response.status == 404 ==> http_result(url, Ok(response)) == Err::<Seq<u8>, _>(
            ErrorView::BlockNotFound(url),
        ),
        response.status != 404 ==> match response.body {
            Ok(bytes) => http_result(url, Ok(response)) == Ok::<_, ErrorView>(bytes@),
            Err(error) => http_result(url, Ok(response)) == Err::<Seq<u8>, _>(
                ErrorView::ReqwestError(
                    match error.url {
                        Some(place) => place@,
                        None => Seq::empty(),
                    },
                    error.error@,
                ),
            ),
        },
{
}

/// A request that was not answered is reported with the URL that was asked for.
pub proof fn a_request_without_an_answer_is_reported(url: Seq<char>, error: String)
    ensures
        http_result(url, Err(error)) == Err::<Seq<u8>, _>(ErrorView::ReqwestError(url, error@)),
{
}

} // verus!
