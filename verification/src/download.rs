//! What a downloader hands back, and URL validation.
//!
//! The network calls themselves live outside the library; the library
//! validates the requested URL, inspects the outcome of a download and
//! classifies its failures.

use vstd::prelude::*;

verus! {

/// Whether a text parses as a well-formed URL.
pub uninterp spec fn url_well_formed(s: Seq<char>) -> bool;

/// Relies on url's `Url::parse`: whether a string parses as a URL is a
/// function of the string alone.
#[verifier::external_body]
pub(crate) fn parse_url_ok(s: &str) -> (r: bool)
    ensures
        r == url_well_formed(s@),
{
    url::Url::parse(s).is_ok()
}

/// How a single page download failed.
#[derive(Clone, Copy, Debug, PartialEq, Eq, Structural)]
pub enum DownloadingError {
    Timeout,
    Redirection,
    CreatingDownloaderClient,
    GetSourceFromResponse,
    CannotGetDownloadedUrl,
    NotValidInputUrl,
    Other,
}

/// What one download attempt produced: the page text together with the
/// URL the request landed on, or a classified failure.
#[derive(Clone, Debug)]
pub enum DownloadOutcome {
    Fetched { document: String, landed_url: String },
    Failed(DownloadingError),
}

} // verus!
