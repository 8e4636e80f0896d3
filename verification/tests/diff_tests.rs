use packsync::diff::{compute_diff, DiffResult};
use packsync::entry::FileInfo;

fn local(name: &str, hash: &str) -> FileInfo {
    FileInfo::new(name.to_string(), None, Some(hash.to_string()))
}

fn declared(name: &str, url: &str, hash: &str) -> FileInfo {
    FileInfo::new(name.to_string(), Some(url.to_string()), Some(hash.to_string()))
}

fn names(entries: &[FileInfo]) -> Vec<String> {
    entries.iter().map(|e| e.name.clone()).collect()
}

#[test]
fn disjoint_hashes_delete_all_download_all() {
    let a = vec![local("one.jar", "h1"), local("two.jar", "h2")];
    let b = vec![declared("three.jar", "u3", "h3"), declared("four.jar", "u4", "h4")];
    let r = compute_diff(&a, &b, false);
    assert!(!r.wipe_all);
    assert_eq!(r.to_delete, a);
    assert_eq!(r.to_download, b);
}

#[test]
fn identical_inventories_change_nothing() {
    let a = vec![local("one.jar", "h1"), local("two.jar", "h2")];
    let b = vec![
        declared("one.jar", "u1", "h1"),
        declared("two.jar", "u2", "h2"),
    ];
    let r = compute_diff(&a, &b, false);
    assert!(!r.wipe_all);
    assert!(r.to_delete.is_empty());
    assert!(r.to_download.is_empty());
}

#[test]
fn diff_is_pure_and_repeatable() {
    let a = vec![local("one.jar", "h1"), local("two.jar", "h2")];
    let b = vec![declared("one.jar", "u1", "h1"), declared("three.jar", "u3", "h3")];
    let r1 = compute_diff(&a, &b, false);
    let r2 = compute_diff(&a, &b, false);
    assert_eq!(r1, r2);
    let f1 = compute_diff(&a, &b, true);
    let f2 = compute_diff(&a, &b, true);
    assert_eq!(f1, f2);
}

#[test]
fn name_absent_deleted_hash_absent_downloaded() {
    // local {A.jar: hash1, B.jar: hash2}, declared {A.jar: hash1, C.jar: hash3}
    let a = vec![local("A.jar", "hash1"), local("B.jar", "hash2")];
    let b = vec![
        declared("A.jar", "uA", "hash1"),
        declared("C.jar", "uC", "hash3"),
    ];
    let r = compute_diff(&a, &b, false);
    assert!(!r.wipe_all);
    assert_eq!(names(&r.to_delete), vec!["B.jar".to_string()]);
    assert_eq!(names(&r.to_download), vec!["C.jar".to_string()]);
}

#[test]
fn renamed_but_identical_content_is_kept_under_declared_name_only() {
    // same hash under another name: the name check still deletes it
    let a = vec![local("renamed.jar", "hash1")];
    let b = vec![declared("A.jar", "uA", "hash1")];
    let r = compute_diff(&a, &b, false);
    // name absent from declared names, so deleted; hash present locally, so
    // nothing to download
    assert_eq!(names(&r.to_delete), vec!["renamed.jar".to_string()]);
    assert!(r.to_download.is_empty());
}

#[test]
fn wrong_content_under_expected_name_is_deleted_and_refetched() {
    let a = vec![local("A.jar", "stale")];
    let b = vec![declared("A.jar", "uA", "fresh")];
    let r = compute_diff(&a, &b, false);
    assert_eq!(names(&r.to_delete), vec!["A.jar".to_string()]);
    assert_eq!(names(&r.to_download), vec!["A.jar".to_string()]);
}

#[test]
fn force_full_resync_downloads_everything_and_wipes() {
    let a = vec![local("one.jar", "h1")];
    let b = vec![
        declared("one.jar", "u1", "h1"),
        declared("two.jar", "u2", "h2"),
    ];
    let r = compute_diff(&a, &b, true);
    assert!(r.wipe_all);
    assert!(r.to_delete.is_empty());
    assert_eq!(r.to_download, b);
}

#[test]
fn empty_inventories_yield_empty_diff() {
    let r = compute_diff(&Vec::new(), &Vec::new(), false);
    let expected = DiffResult { wipe_all: false, to_delete: Vec::new(), to_download: Vec::new() };
    assert_eq!(r, expected);
}
