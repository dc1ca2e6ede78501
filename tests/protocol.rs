use pi::archive::{archive_format, trim_end_all, validate_entries, ArchiveFormat};
use pi::bin_database::{BinDatabase, BinRepo};
use pi::download::{clone_action, range_header, reported_size, response_use, CloneAction, CloneOutcome, ResponseUse};
use pi::text::{decimal_string, hex_string, parse_decimal};
use pi::update::{update_action, UpdateAction};
use pi::{Application, Configuration, Layout, Metadata, PkgError};

fn app(name: &str, version: &str) -> Application {
    let mut metadata = Metadata::default();
    metadata.name = name.to_string();
    metadata.version = version.to_string();
    Application { metadata, security: None, dependencies: None, files: vec![] }
}

#[test]
fn second_update_without_change_does_nothing() {
    let local = 100u64;
    assert_eq!(update_action(local, "200").unwrap(), UpdateAction::Sync);
    let after = 200u64;
    assert_eq!(update_action(after, "200").unwrap(), UpdateAction::UpToDate);
    assert_eq!(update_action(300, "200").unwrap(), UpdateAction::UpToDate);
    match update_action(1, "soon") {
        Err(PkgError::Transfer(b)) => assert_eq!(b, "soon"),
        other => panic!("unexpected {:?}", other),
    }
}

#[test]
fn newer_upstream_versions_are_upgraded() {
    let mut db = BinDatabase::new();
    db.repos.push((
        "core".to_string(),
        BinRepo { applications: vec![app("a", "1.2.0"), app("b", "1.0.0"), app("c", "0.9.0")], date: 5 },
    ));
    let config = Configuration::gen();
    let installed = vec![app("a", "1.1.9"), app("b", "1.0.0"), app("c", "1.0.0"), app("d", "0.1.0")];
    assert_eq!(db.upgrades(&config, &installed).unwrap(), vec!["a".to_string()]);
    assert_eq!(db.repo_date("core"), Some(5));
    assert_eq!(db.repo_date("none"), None);
}

#[test]
fn resume_asks_from_current_length() {
    assert_eq!(range_header(0), "bytes=0-");
    assert_eq!(range_header(1234), "bytes=1234-");
    let remote: Vec<u8> = (0u8..50).collect();
    let partial = remote[..17].to_vec();
    let mut completed = partial.clone();
    completed.extend_from_slice(&remote[partial.len()..]);
    assert_eq!(completed, remote);
}

#[test]
fn missing_content_length_is_zero() {
    assert_eq!(reported_size(None), 0);
    assert_eq!(reported_size(Some("abc")), 0);
    assert_eq!(reported_size(Some("4096")), 4096);
}

#[test]
fn stale_checkout_is_retried_once() {
    assert_eq!(clone_action(0, CloneOutcome::Exists), CloneAction::RemoveAndRetry);
    assert_eq!(clone_action(1, CloneOutcome::Exists), CloneAction::Fail);
    assert_eq!(clone_action(0, CloneOutcome::Failed), CloneAction::Fail);
    assert_eq!(clone_action(0, CloneOutcome::Cloned), CloneAction::Done);
}

#[test]
fn formats_by_extension() {
    assert_eq!(archive_format("/tmp/a.tar.bz2"), ArchiveFormat::Bz2);
    assert_eq!(archive_format("a.tar.gz"), ArchiveFormat::Gz);
    assert_eq!(archive_format("dir.v1/a.tar.xz"), ArchiveFormat::Xz);
    assert_eq!(archive_format("a.zip"), ArchiveFormat::Zip);
    assert_eq!(archive_format("pkg-1-1-x86_64.tar.zst"), ArchiveFormat::Zst);
    assert_eq!(archive_format("dir.zip/file"), ArchiveFormat::Unknown);
    assert_eq!(archive_format(".zip"), ArchiveFormat::Unknown);
    assert_eq!(archive_format("a.rar"), ArchiveFormat::Unknown);
}

#[test]
fn artifact_needs_exactly_one_manifest() {
    let ok = vec!["manifest.yml".to_string(), "usr/bin/x".to_string()];
    assert!(validate_entries(&ok).is_ok());
    let none = vec!["usr/bin/x".to_string()];
    assert!(matches!(validate_entries(&none), Err(PkgError::Archive(_))));
    let two = vec!["manifest.yml".to_string(), "manifest.yml".to_string()];
    assert!(validate_entries(&two).is_err());
    assert_eq!(trim_end_all("x.app.app", ".app"), "x");
    assert_eq!(trim_end_all("x.tar.zst", ".zst"), "x.tar");
}

#[test]
fn text_helpers() {
    assert_eq!(decimal_string(0), "0");
    assert_eq!(decimal_string(1234567890), "1234567890");
    assert_eq!(hex_string(&[0, 15, 16, 255]), "000f10ff");
    assert_eq!(parse_decimal("1700000000"), Some(1700000000));
    assert_eq!(parse_decimal("+7"), Some(7));
    assert_eq!(parse_decimal(""), None);
    assert_eq!(parse_decimal("18446744073709551616"), None);
    assert_eq!(parse_decimal("18446744073709551615"), Some(u64::MAX));
}

#[test]
fn layout_paths() {
    let l = Layout::new("/", "/w");
    assert_eq!(l.local_dir, "/var/lib/store/local");
    assert_eq!(l.conf_file, "/etc/store/store.conf");
    assert_eq!(l.installed_manifest("vim"), "/var/lib/store/local/vim/manifest.yml");
    assert_eq!(l.repo_db_file("core"), "/var/lib/store/sync/core.db");
    assert_eq!(l.mani_file, "/w/package/manifest.yml");
    assert_eq!(l.bases().len(), 7);
    let c = Configuration::gen();
    assert_eq!(c.repos.len(), 1);
    assert_eq!(c.get_static_address("core"), Some("http://localhost:3690/core/".to_string()));
    assert_eq!(c.get_update_address("core"), Some("http://localhost:3690/version/core".to_string()));
    assert_eq!(c.get_static_address("extra"), None);
}

#[test]
fn reported_version_reads_back_as_up_to_date() {
    let repo = BinRepo { applications: vec![], date: 1_700_000_123 };
    let body = repo.version_body();
    assert_eq!(body, "1700000123");
    assert_eq!(update_action(repo.date, &body).unwrap(), UpdateAction::UpToDate);
    assert_eq!(update_action(repo.date - 1, &body).unwrap(), UpdateAction::Sync);
}

#[test]
fn only_partial_content_is_appended() {
    assert_eq!(response_use(true, 206), ResponseUse::Append);
    assert_eq!(response_use(true, 416), ResponseUse::AlreadyComplete);
    assert_eq!(response_use(true, 200), ResponseUse::Replace);
    assert_eq!(response_use(false, 200), ResponseUse::Replace);
    assert_eq!(response_use(false, 206), ResponseUse::Replace);
    assert_eq!(response_use(false, 416), ResponseUse::Fail);
    assert_eq!(response_use(true, 404), ResponseUse::Fail);
}
