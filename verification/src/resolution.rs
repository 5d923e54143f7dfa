//! The outcome of comparing the installed version of a package with the
//! latest one, and what can be done with it.

use crate::error::{DiffDownloadError, DiffDownloadErrorView};
use crate::text::{optional_str_view, optional_view};
use crate::transaction::{DiffTransaction, TransactionView};
use crate::version::Version;
use vstd::prelude::*;
use vstd::string::*;

verus! {

/// The error of the system's input and output, as a source of resolutions may
/// report it. Nothing is known of its inside.
#[verifier::external_type_specification]
#[verifier::external_body]
pub struct ExIoError(std::io::Error);

/// How the installed version relates to the latest one.
#[derive(Debug, Clone, PartialEq, Eq)]
pub enum VersionDiff {
    /// The latest version is installed.
    Latest(Version),
    /// An archive leads from the installed version to the latest one.
    Diff {
        current: Version,
        latest: Version,
        url: String,
        download_size: u64,
        unpacked_size: u64,
        /// The directory that [`VersionDiff::install`] installs into. Without
        /// it `install` fails with [`DiffDownloadError::PathNotSpecified`].
        unpacking_path: Option<String>,
    },
    /// The installed version is too old: no archive leads from it to the
    /// latest one.
    Outdated { current: Version, latest: Version },
    /// Nothing is installed; the archive holds the whole package.
    NotInstalled {
        latest: Version,
        url: String,
        download_size: u64,
        unpacked_size: u64,
        /// The directory that [`VersionDiff::install`] installs into. Without
        /// it `install` fails with [`DiffDownloadError::PathNotSpecified`].
        unpacking_path: Option<String>,
    },
}

/// A download that was asked for: the archive at `url` is to be written to
/// the file at `path`.
#[derive(Debug)]
pub struct Download {
    pub url: String,
    pub path: String,
}

impl Download {
    /// The result of the download, given what the transport reported.
    pub fn finish(self, outcome: Result<(), curl::Error>) -> (res: Result<(), DiffDownloadError>)
        ensures
            match outcome {
                Ok(_) => res is Ok,
                Err(error) => res matches Err(failure) && failure@ == DiffDownloadErrorView::Curl(
                    error,
                ),
            },
    {
        match outcome {
            Ok(_) => Ok(()),
            Err(error) => Err(DiffDownloadError::Curl(error)),
        }
    }
}

impl VersionDiff {
    /// Whether there is an archive to fetch.
    pub open spec fn downloadable(&self) -> bool {
        self is Diff || self is NotInstalled
    }

    /// Where the archive comes from.
    pub open spec fn spec_url(&self) -> Seq<char> {
        match self {
            VersionDiff::Diff { url, .. } => url@,
            VersionDiff::NotInstalled { url, .. } => url@,
            _ => Seq::empty(),
        }
    }

    /// The size of the archive and the size of what it unpacks to, in bytes.
    pub open spec fn spec_size(&self) -> Option<(u64, u64)> {
        match self {
            VersionDiff::Diff { download_size, unpacked_size, .. } => Some(
                (*download_size, *unpacked_size),
            ),
            VersionDiff::NotInstalled { download_size, unpacked_size, .. } => Some(
                (*download_size, *unpacked_size),
            ),
            _ => None,
        }
    }

    /// The directory to install into, where one is known.
    pub open spec fn spec_unpacking_path(&self) -> Option<Seq<char>> {
        match self {
            VersionDiff::Diff { unpacking_path, .. } => optional_view(*unpacking_path),
            VersionDiff::NotInstalled { unpacking_path, .. } => optional_view(*unpacking_path),
            _ => None,
        }
    }

    /// Why nothing can be fetched, where nothing can.
    pub open spec fn refusal(&self) -> Option<DiffDownloadErrorView> {
        match self {
            VersionDiff::Latest(_) => Some(DiffDownloadErrorView::AlreadyLatest),
            VersionDiff::Outdated { .. } => Some(DiffDownloadErrorView::Outdated),
            _ => None,
        }
    }

    /// Why [`VersionDiff::install`] cannot start, where it cannot.
    pub open spec fn install_refusal(&self) -> Option<DiffDownloadErrorView> {
        if self.refusal() is Some {
            self.refusal()
        } else if self.spec_unpacking_path() is None {
            Some(DiffDownloadErrorView::PathNotSpecified)
        } else {
            None
        }
    }

    /// The archive's address, or the reason why there is none.
    fn archive(&self) -> (res: Result<&String, DiffDownloadError>)
        ensures
            match res {
                Ok(url) => self.downloadable() && url@ == self.spec_url(),
                Err(error) => Some(error@) == self.refusal(),
            },
    {
        match self {
            VersionDiff::Latest(_) => Err(DiffDownloadError::AlreadyLatest),
            VersionDiff::Outdated { .. } => Err(DiffDownloadError::Outdated),
            VersionDiff::Diff { url, .. } => Ok(url),
            VersionDiff::NotInstalled { url, .. } => Ok(url),
        }
    }

    /// Asks for the archive to be downloaded to the file at `path`.
    ///
    /// Nothing can be downloaded where the latest version is installed
    /// ([`DiffDownloadError::AlreadyLatest`]) or where the installed one is
    /// too old ([`DiffDownloadError::Outdated`]).
    pub fn download_to(&self, path: &str) -> (res: Result<Download, DiffDownloadError>)
        ensures
            match res {
                Ok(download) => self.downloadable() && download.url@ == self.spec_url()
                    && download.path@ == path@,
                Err(error) => Some(error@) == self.refusal(),
            },
    {
        match self.archive() {
            Ok(url) => Ok(Download { url: url.clone(), path: String::from_str(path) }),
            Err(error) => Err(error),
        }
    }

    /// Starts the installation into the directory that the resolution
    /// carries.
    ///
    /// Fails as [`VersionDiff::install_to`] does, and with
    /// [`DiffDownloadError::PathNotSpecified`] where the resolution carries
    /// no directory.
    pub fn install(&self) -> (res: Result<DiffTransaction, DiffDownloadError>)
        ensures
            match res {
                Ok(tx) => self.install_refusal() is None && tx@ == TransactionView::begin(
                    self.spec_url(),
                    self.spec_unpacking_path().unwrap(),
                    None,
                ),
                Err(error) => Some(error@) == self.install_refusal(),
            },
    {
        match self {
            VersionDiff::Latest(_) => Err(DiffDownloadError::AlreadyLatest),
            VersionDiff::Outdated { .. } => Err(DiffDownloadError::Outdated),
            VersionDiff::Diff { unpacking_path, .. }
            | VersionDiff::NotInstalled { unpacking_path, .. } => {
                match unpacking_path {
                    Some(unpacking_path) => self.install_to_by(unpacking_path.as_str(), None),
                    None => Err(DiffDownloadError::PathNotSpecified),
                }
            },
        }
    }

    /// Starts the installation into the directory `path`, whatever directory
    /// the resolution carries.
    pub fn install_to(&self, path: &str) -> (res: Result<DiffTransaction, DiffDownloadError>)
        ensures
            match res {
                Ok(tx) => self.downloadable() && tx@ == TransactionView::begin(
                    self.spec_url(),
                    path@,
                    None,
                ),
                Err(error) => Some(error@) == self.refusal(),
            },
    {
        match self {
            VersionDiff::Latest(_) => Err(DiffDownloadError::AlreadyLatest),
            VersionDiff::Outdated { .. } => Err(DiffDownloadError::Outdated),
            VersionDiff::Diff { .. } | VersionDiff::NotInstalled { .. } => self.install_to_by(
                path,
                None,
            ),
        }
    }

    /// Starts the installation into the directory `path`, with `temp_path`
    /// as the staging directory; without one the system's place for
    /// temporary files is used.
    ///
    /// Nothing can be installed where the latest version is installed
    /// ([`DiffDownloadError::AlreadyLatest`]) or where the installed one is
    /// too old ([`DiffDownloadError::Outdated`]). Otherwise the transaction
    /// is returned with nothing done yet.
    pub fn install_to_by(&self, path: &str, temp_path: Option<&str>) -> (res: Result<
        DiffTransaction,
        DiffDownloadError,
    >)
        ensures
            match res {
                Ok(tx) => self.downloadable() && tx@ == TransactionView::begin(
                    self.spec_url(),
                    path@,
                    optional_str_view(temp_path),
                ),
                Err(error) => Some(error@) == self.refusal(),
            },
    {
        match self.archive() {
            Ok(url) => Ok(DiffTransaction::begin(url.as_str(), path, temp_path)),
            Err(error) => Err(error),
        }
    }

    /// The size of the archive and the size of what it unpacks to, in bytes,
    /// where there is an archive.
    pub fn get_size(&self) -> (res: Option<(u64, u64)>)
        ensures
            res == self.spec_size(),
            res is None <==> self is Latest || self is Outdated,
    {
        match self {
            VersionDiff::Latest(_) => None,
            VersionDiff::Outdated { .. } => None,
            VersionDiff::Diff { download_size, unpacked_size, .. }
            | VersionDiff::NotInstalled { download_size, unpacked_size, .. } => Some(
                (*download_size, *unpacked_size),
            ),
        }
    }

    /// The directory that [`VersionDiff::install`] installs into, where the
    /// resolution carries one.
    pub fn unpacking_path(&self) -> (res: Option<String>)
        ensures
            optional_view(res) == self.spec_unpacking_path(),
            self is Latest || self is Outdated ==> res is None,
    {
        match self {
            VersionDiff::Latest(_) => None,
            VersionDiff::Outdated { .. } => None,
            VersionDiff::Diff { unpacking_path, .. }
            | VersionDiff::NotInstalled { unpacking_path, .. } => match unpacking_path {
                Some(unpacking_path) => Some(unpacking_path.clone()),
                None => None,
            },
        }
    }
}

/// A source of resolutions: something that knows an installed version and
/// can find out the latest one.
pub trait TryGetDiff {
    /// Compares the installed version with the latest one available.
    fn try_get_diff(&self) -> Result<VersionDiff, std::io::Error>;
}

} // verus!
