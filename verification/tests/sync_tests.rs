use packsync::entry::{is_valid_entry_name, local_inventory, FileInfo};
use packsync::errors::SyncError;
use packsync::sync::{
    find_first_with_suffix, needs_update, phase_rank, progress_permille, Config, SyncPhase,
    UpdateStatus,
};

#[test]
fn update_needed_only_when_tags_differ() {
    assert!(!needs_update("1.2", "v1.2"));
    assert!(needs_update("1.2", "v1.3"));
    // only the first two tokens count
    assert!(!needs_update("1.2.9", "v1.2"));
}

#[test]
fn malformed_installed_version_always_needs_update() {
    assert!(needs_update("3", "v3.0"));
    assert!(needs_update("", "v1.0"));
}

#[test]
fn commit_version_changes_the_version_alone() {
    let before = Config {
        pack_location: "C:/packs/og3".to_string(),
        version: "1.2".to_string(),
        redownload_all: true,
    };
    let after = before.commit_version("1.3".to_string());
    assert_eq!(after.pack_location, "C:/packs/og3");
    assert_eq!(after.version, "1.3");
    assert!(after.redownload_all);
}

#[test]
fn bundle_asset_is_the_first_with_the_suffix() {
    let names = vec![
        "notes.txt".to_string(),
        "pack-1.3.zip".to_string(),
        "other.zip".to_string(),
    ];
    assert_eq!(find_first_with_suffix(&names, ".zip"), Some(1));
    assert_eq!(find_first_with_suffix(&names, ".mrpack"), None);
}

#[test]
fn progress_rises_through_the_phases() {
    let phases = [
        SyncPhase::Started,
        SyncPhase::BundleFetched,
        SyncPhase::InventoryBuilt,
        SyncPhase::ArchiveResolved,
        SyncPhase::DiffComputed,
        SyncPhase::ExtractionDone,
        SyncPhase::DownloadsDone,
        SyncPhase::Committed,
    ];
    for w in phases.windows(2) {
        assert!(phase_rank(w[0]) < phase_rank(w[1]));
        assert!(progress_permille(w[0]) < progress_permille(w[1]));
    }
    assert_eq!(progress_permille(SyncPhase::Started), 0);
    assert_eq!(progress_permille(SyncPhase::Committed), 1000);
}

#[test]
fn status_labels_match_the_presentation_protocol() {
    assert_eq!(UpdateStatus::NotNeeded.label(), "false");
    assert_eq!(UpdateStatus::InProgress.label(), "true");
    assert_eq!(UpdateStatus::Done.label(), "done");
}

#[test]
fn error_descriptions_name_each_failure() {
    assert_eq!(SyncError::IoError.describe(), "file could not be read or written");
    assert_eq!(SyncError::NetworkError.describe(), "network fetch failed");
    assert_eq!(SyncError::MissingPayload.describe(), "no payload archive inside the bundle");
    assert_eq!(SyncError::MalformedManifest.describe(), "manifest document could not be parsed");
}

#[test]
fn scanned_pairs_become_local_entries() {
    let items = vec![
        ("a.jar".to_string(), "h1".to_string()),
        ("b.jar".to_string(), "h2".to_string()),
    ];
    let inv = local_inventory(items);
    assert_eq!(inv.len(), 2);
    assert_eq!(inv[0], FileInfo::new("a.jar".to_string(), None, Some("h1".to_string())));
    assert_eq!(inv[1].hash.as_deref(), Some("h2"));
    assert!(inv.iter().all(|e| e.url.is_none()));
}

#[test]
fn a_name_with_a_separator_is_skipped_not_fatal() {
    assert!(is_valid_entry_name("plain.jar"));
    assert!(!is_valid_entry_name("dir/nested.jar"));
    let items = vec![
        ("ok.jar".to_string(), "h1".to_string()),
        ("bad/evil.jar".to_string(), "h2".to_string()),
    ];
    let inv = local_inventory(items);
    assert_eq!(inv.len(), 1);
    assert_eq!(inv[0].name, "ok.jar");
}
