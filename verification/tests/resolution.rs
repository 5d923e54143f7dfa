use version_diff::error::DiffDownloadError;
use version_diff::resolution::{Download, VersionDiff};
use version_diff::transaction::Action;
use version_diff::version::Version;

fn latest() -> VersionDiff {
    VersionDiff::Latest(Version::new(3, 2, 0))
}

fn outdated() -> VersionDiff {
    VersionDiff::Outdated { current: Version::new(1, 0, 0), latest: Version::new(3, 2, 0) }
}

fn diff(unpacking_path: Option<&str>) -> VersionDiff {
    VersionDiff::Diff {
        current: Version::new(3, 1, 0),
        latest: Version::new(3, 2, 0),
        url: String::from("https://example.org/game_3.1.0_3.2.0_hdiff.zip"),
        download_size: 1_000,
        unpacked_size: 2_500,
        unpacking_path: unpacking_path.map(String::from),
    }
}

fn not_installed(unpacking_path: Option<&str>) -> VersionDiff {
    VersionDiff::NotInstalled {
        latest: Version::new(3, 2, 0),
        url: String::from("https://example.org/game_3.2.0.zip"),
        download_size: u64::MAX,
        unpacked_size: 0,
        unpacking_path: unpacking_path.map(String::from),
    }
}

#[test]
fn version_keeps_its_numbers() {
    let version = Version::new(3, 2, 1);
    assert_eq!(version.major, 3);
    assert_eq!(version.minor, 2);
    assert_eq!(version.patch, 1);
    assert_eq!(version, Version { major: 3, minor: 2, patch: 1 });
    assert_ne!(version, Version::new(3, 2, 0));
}

#[test]
fn size_is_known_where_there_is_an_archive() {
    assert_eq!(latest().get_size(), None);
    assert_eq!(outdated().get_size(), None);
    assert_eq!(diff(None).get_size(), Some((1_000, 2_500)));
    assert_eq!(not_installed(Some("/games/a")).get_size(), Some((u64::MAX, 0)));
}

#[test]
fn unpacking_path_is_the_embedded_one() {
    assert_eq!(latest().unpacking_path(), None);
    assert_eq!(outdated().unpacking_path(), None);
    assert_eq!(diff(None).unpacking_path(), None);
    assert_eq!(diff(Some("/games/a")).unpacking_path(), Some(String::from("/games/a")));
    assert_eq!(not_installed(None).unpacking_path(), None);
    assert_eq!(not_installed(Some("")).unpacking_path(), Some(String::new()));
}

#[test]
fn resolutions_compare_by_value() {
    assert_eq!(diff(Some("/games/a")), diff(Some("/games/a")).clone());
    assert_ne!(diff(Some("/games/a")), diff(None));
    assert_ne!(latest(), outdated());
}

#[test]
fn download_is_refused_without_an_archive() {
    assert!(matches!(latest().download_to("/tmp/archive.zip"), Err(DiffDownloadError::AlreadyLatest)));
    assert!(matches!(outdated().download_to("/tmp/archive.zip"), Err(DiffDownloadError::Outdated)));
}

#[test]
fn download_names_the_archive_and_the_file() {
    let download = diff(None).download_to("/tmp/archive.zip").unwrap();
    assert_eq!(download.url, "https://example.org/game_3.1.0_3.2.0_hdiff.zip");
    assert_eq!(download.path, "/tmp/archive.zip");
    let download = not_installed(Some("/games/a")).download_to("").unwrap();
    assert_eq!(download.url, "https://example.org/game_3.2.0.zip");
    assert_eq!(download.path, "");
}

#[test]
fn download_hands_the_transport_error_on() {
    let download = Download { url: String::from("u"), path: String::from("p") };
    assert!(matches!(download.finish(Ok(())), Ok(())));
    let download = Download { url: String::from("u"), path: String::from("p") };
    let mut error = curl::Error::new(7);
    error.set_extra(String::from("connection refused"));
    match download.finish(Err(error.clone())) {
        Err(DiffDownloadError::Curl(handed)) => {
            assert_eq!(handed.code(), 7);
            assert_eq!(handed.extra_description(), Some("connection refused"));
            assert!(handed == error);
        }
        other => panic!("unexpected result: {:?}", other),
    }
}

#[test]
fn install_is_refused_without_an_archive() {
    assert!(matches!(latest().install(), Err(DiffDownloadError::AlreadyLatest)));
    assert!(matches!(outdated().install(), Err(DiffDownloadError::Outdated)));
    assert!(matches!(latest().install_to("/games/a"), Err(DiffDownloadError::AlreadyLatest)));
    assert!(matches!(outdated().install_to("/games/a"), Err(DiffDownloadError::Outdated)));
    assert!(matches!(
        latest().install_to_by("/games/a", Some("/var/tmp")),
        Err(DiffDownloadError::AlreadyLatest)
    ));
    assert!(matches!(
        outdated().install_to_by("/games/a", None),
        Err(DiffDownloadError::Outdated)
    ));
}

#[test]
fn install_needs_an_embedded_path() {
    assert!(matches!(diff(None).install(), Err(DiffDownloadError::PathNotSpecified)));
    assert!(matches!(not_installed(None).install(), Err(DiffDownloadError::PathNotSpecified)));
}

#[test]
fn install_starts_by_unpacking_into_the_embedded_path() {
    let transaction = diff(Some("/games/a")).install().unwrap();
    assert!(!transaction.finished());
    match transaction.pending() {
        Action::Unpack { url, path, temp_path } => {
            assert_eq!(url, "https://example.org/game_3.1.0_3.2.0_hdiff.zip");
            assert_eq!(path, "/games/a");
            assert_eq!(temp_path, None);
        }
        other => panic!("unexpected action: {:?}", other),
    }
}

#[test]
fn install_to_overrides_the_embedded_path() {
    let transaction = not_installed(Some("/games/a")).install_to("/games/b").unwrap();
    match transaction.pending() {
        Action::Unpack { url, path, temp_path } => {
            assert_eq!(url, "https://example.org/game_3.2.0.zip");
            assert_eq!(path, "/games/b");
            assert_eq!(temp_path, None);
        }
        other => panic!("unexpected action: {:?}", other),
    }
}

#[test]
fn install_to_by_hands_the_staging_directory_on() {
    let transaction = diff(None).install_to_by("/games/b", Some("/var/tmp")).unwrap();
    match transaction.pending() {
        Action::Unpack { url, path, temp_path } => {
            assert_eq!(url, "https://example.org/game_3.1.0_3.2.0_hdiff.zip");
            assert_eq!(path, "/games/b");
            assert_eq!(temp_path, Some(String::from("/var/tmp")));
        }
        other => panic!("unexpected action: {:?}", other),
    }
}

#[test]
fn errors_can_be_copied() {
    let error = DiffDownloadError::HdiffPatch(String::from("bad patch"));
    assert!(matches!(error.clone(), DiffDownloadError::HdiffPatch(detail) if detail == "bad patch"));
    let error = DiffDownloadError::Curl(curl::Error::new(28));
    assert!(matches!(error.clone(), DiffDownloadError::Curl(inner) if inner.is_operation_timedout()));
    assert!(matches!(DiffDownloadError::AlreadyLatest.clone(), DiffDownloadError::AlreadyLatest));
    assert!(matches!(DiffDownloadError::Outdated.clone(), DiffDownloadError::Outdated));
    assert!(matches!(
        DiffDownloadError::PathNotSpecified.clone(),
        DiffDownloadError::PathNotSpecified
    ));
}
