//! What can go wrong when a version difference is downloaded or installed.

use vstd::prelude::*;

verus! {

/// The transport's error, as `curl` reports it. Nothing is known of its inside.
#[verifier::external_type_specification]
#[verifier::external_body]
pub struct ExCurlError(curl::Error);

/// `curl::Error` derives `Clone`: the copy is the same error, code and extra
/// text alike.
pub assume_specification[ <curl::Error as Clone>::clone ](error: &curl::Error) -> (res: curl::Error)
    ensures
        res == *error,
;

/// Why a version difference could not be downloaded or installed.
#[derive(Debug)]
pub enum DiffDownloadError {
    /// The installation is already up to date: there is nothing to fetch.
    AlreadyLatest,
    /// The installed version is too old for an incremental update; everything
    /// has to be downloaded anew by other means.
    Outdated,
    /// The transport failed; its error is handed on as it came.
    Curl(curl::Error),
    /// The patch engine rejected a file; the text is its message.
    HdiffPatch(String),
    /// No installation path is known, and none was given.
    PathNotSpecified,
}

/// A [`DiffDownloadError`] as a mathematical value.
pub enum DiffDownloadErrorView {
    AlreadyLatest,
    Outdated,
    Curl(curl::Error),
    HdiffPatch(Seq<char>),
    PathNotSpecified,
}

impl View for DiffDownloadError {
    type V = DiffDownloadErrorView;

    open spec fn view(&self) -> DiffDownloadErrorView {
        match self {
            DiffDownloadError::AlreadyLatest => DiffDownloadErrorView::AlreadyLatest,
            DiffDownloadError::Outdated => DiffDownloadErrorView::Outdated,
            DiffDownloadError::Curl(error) => DiffDownloadErrorView::Curl(*error),
            DiffDownloadError::HdiffPatch(detail) => DiffDownloadErrorView::HdiffPatch(detail@),
            DiffDownloadError::PathNotSpecified => DiffDownloadErrorView::PathNotSpecified,
        }
    }
}

impl Clone for DiffDownloadError {
    fn clone(&self) -> (res: Self)
        ensures
            res@ == self@,
    {
        match self {
            DiffDownloadError::AlreadyLatest => DiffDownloadError::AlreadyLatest,
            DiffDownloadError::Outdated => DiffDownloadError::Outdated,
            DiffDownloadError::Curl(error) => DiffDownloadError::Curl(error.clone()),
            DiffDownloadError::HdiffPatch(detail) => DiffDownloadError::HdiffPatch(detail.clone()),
            DiffDownloadError::PathNotSpecified => DiffDownloadError::PathNotSpecified,
        }
    }
}

} // verus!
