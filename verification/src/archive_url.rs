//! The URLs that blocks are fetched from.

use vstd::prelude::*;

verus! {

/// A URL, as far as fetching reads it.
#[derive(Debug, PartialEq, Eq)]
pub struct ArchiveUrl {
    /// The whole URL.
    pub text: String,
    /// The scheme, without the colon.
    pub scheme: String,
    /// Everything from the host to the end of the path. Of a `file` URL this
    /// is the path of the file.
    pub host_and_path: String,
}

/// What an `ArchiveUrl` is, as a mathematical value.
#[verifier::ext_equal]
pub struct UrlView {
    pub text: Seq<char>,
    pub scheme: Seq<char>,
    pub host_and_path: Seq<char>,
}

impl View for ArchiveUrl {
    type V = UrlView;

    open spec fn view(&self) -> UrlView {
        UrlView {
            text: self.text@,
            scheme: self.scheme@,
            host_and_path: self.host_and_path@,
        }
    }
}

impl Clone for ArchiveUrl {
    fn clone(&self) -> (copy: Self)
        ensures
            copy@ == self@,
    {
        ArchiveUrl {
            text: self.text.clone(),
            scheme: self.scheme.clone(),
            host_and_path: self.host_and_path.clone(),
        }
    }
}

/// A URL, or the description of what is wrong with the text, as a mathematical
/// value.
pub open spec fn url_result(r: Result<ArchiveUrl, String>) -> Result<UrlView, Seq<char>> {
    match r {
        Ok(url) => Ok(url@),
        Err(error) => Err(error@),
    }
}

/// What `url::Url::parse` makes of a text: the URL, or the error's description.
pub uninterp spec fn url_parsed(input: Seq<char>) -> Result<UrlView, Seq<char>>;

/// What `url::Url::join` makes of a base URL and a reference.
pub uninterp spec fn url_joined(base: Seq<char>, reference: Seq<char>) -> Result<
    UrlView,
    Seq<char>,
>;

/// Calls `url::Url::parse`. The result depends on the text alone. Of the URL
/// it keeps the serialization (`as_str`), the scheme (`scheme`) and the slice
/// from `Position::BeforeHost` to `Position::AfterPath`; of an error, the text
/// by which it is displayed. Which texts are URLs is left to that crate.
#[verifier::external_body]
pub(crate) fn parse_url(input: &str) -> (r: Result<ArchiveUrl, String>)
    ensures
        url_result(r) == url_parsed(input@),
{
    match url::Url::parse(input) {
        Ok(url) => Ok(
            ArchiveUrl {
                text: url.as_str().to_string(),
                scheme: url.scheme().to_string(),
                host_and_path: url[url::Position::BeforeHost..url::Position::AfterPath].to_string(),
            },
        ),
        Err(error) => Err(error.to_string()),
    }
}

/// Calls `url::Url::join` on the URL whose serialization is `base`. The result
/// depends on the two texts alone; it is kept as `parse_url` keeps it. A base
/// that is no URL gives the error that reading it gives.
#[verifier::external_body]
pub(crate) fn join_url(base: &str, reference: &str) -> (r: Result<ArchiveUrl, String>)
    ensures
        url_result(r) == url_joined(base@, reference@),
{
    match url::Url::parse(base).and_then(|base| base.join(reference)) {
        Ok(url) => Ok(
            ArchiveUrl {
                text: url.as_str().to_string(),
                scheme: url.scheme().to_string(),
                host_and_path: url[url::Position::BeforeHost..url::Position::AfterPath].to_string(),
            },
        ),
        Err(error) => Err(error.to_string()),
    }
}

} // verus!
