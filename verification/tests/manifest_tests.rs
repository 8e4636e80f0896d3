use packsync::errors::SyncError;
use packsync::manifest::{manifest_version, parse_mod_entries};

fn doc() -> Vec<u8> {
    let text = r#"{
        "versionId": "1.3",
        "files": [
            {"path": "mods/alpha.jar", "downloads": ["https://a/alpha"],
             "hashes": {"sha1": "aa", "sha512": "deadbeef"}},
            {"path": "mods/beta.jar", "downloads": ["https://a/beta", "https://b/beta"],
             "hashes": {"sha512": "cafe"}},
            {"path": "config/conf.toml", "downloads": ["https://a/conf"],
             "hashes": {"sha512": "1234"}},
            {"path": "mods/nodl.jar",
             "hashes": {"sha512": "5678"}},
            {"path": "mods/nohash.jar", "downloads": ["https://a/nohash"]}
        ]}"#;
    text.as_bytes().to_vec()
}

#[test]
fn hash_aware_keeps_only_verifiable_mods_entries() {
    let es = parse_mod_entries(&doc(), true).unwrap();
    let names: Vec<&str> = es.iter().map(|e| e.name.as_str()).collect();
    assert_eq!(names, vec!["alpha.jar", "beta.jar"]);
    assert_eq!(es[0].url.as_deref(), Some("https://a/alpha"));
    assert_eq!(es[0].hash.as_deref(), Some("deadbeef"));
    assert_eq!(es[1].url.as_deref(), Some("https://a/beta"));
    assert_eq!(es[1].hash.as_deref(), Some("cafe"));
}

#[test]
fn hash_blind_keeps_every_qualifying_descriptor_without_hashes() {
    let es = parse_mod_entries(&doc(), false).unwrap();
    let names: Vec<&str> = es.iter().map(|e| e.name.as_str()).collect();
    assert_eq!(names, vec!["alpha.jar", "beta.jar", "nohash.jar"]);
    assert!(es.iter().all(|e| e.hash.is_none()));
    assert!(es.iter().all(|e| e.url.is_some()));
}

#[test]
fn descriptor_missing_downloads_is_skipped_not_fatal() {
    // the nodl.jar descriptor has no downloads list: it yields nothing in
    // either mode, while the rest still parse
    let aware = parse_mod_entries(&doc(), true).unwrap();
    assert!(aware.iter().all(|e| e.name != "nodl.jar"));
    let blind = parse_mod_entries(&doc(), false).unwrap();
    assert!(blind.iter().all(|e| e.name != "nodl.jar"));
    assert_eq!(blind.len(), 3);
}

#[test]
fn path_must_carry_a_mods_segment() {
    let body = r#"{"files": [
        {"path": "foomods/x.jar", "downloads": ["u"], "hashes": {"sha512": "aa"}},
        {"path": "deep/mods/y.jar", "downloads": ["u2"], "hashes": {"sha512": "bb"}}
    ]}"#
        .as_bytes()
        .to_vec();
    let es = parse_mod_entries(&body, true).unwrap();
    let names: Vec<&str> = es.iter().map(|e| e.name.as_str()).collect();
    // a piece named exactly `mods` is required: `foomods` does not count
    assert_eq!(names, vec!["y.jar"]);
}

#[test]
fn only_a_textual_first_download_counts() {
    let body = r#"{"files": [
        {"path": "mods/a.jar", "downloads": [5, "https://u/a"], "hashes": {"sha512": "aa"}},
        {"path": "mods/b.jar", "downloads": [], "hashes": {"sha512": "bb"}},
        {"path": "mods/c.jar", "downloads": ["https://u/c"], "hashes": {"sha512": 9}}
    ]}"#
        .as_bytes()
        .to_vec();
    // a non-textual or absent first URL skips the descriptor in both modes;
    // a non-textual sha512 value skips it in hash-aware mode only
    let aware = parse_mod_entries(&body, true).unwrap();
    assert!(aware.is_empty());
    let blind = parse_mod_entries(&body, false).unwrap();
    let names: Vec<&str> = blind.iter().map(|e| e.name.as_str()).collect();
    assert_eq!(names, vec!["c.jar"]);
}

#[test]
fn unparsable_document_is_a_malformed_manifest() {
    let r = parse_mod_entries(b"{ not json", true);
    assert_eq!(r.unwrap_err(), SyncError::MalformedManifest);
    let v = manifest_version(b"{ not json");
    assert_eq!(v.unwrap_err(), SyncError::MalformedManifest);
}

#[test]
fn document_without_files_list_declares_nothing() {
    let es = parse_mod_entries(b"{\"versionId\": \"2.0\"}", true).unwrap();
    assert!(es.is_empty());
}

#[test]
fn version_identifier_is_read_when_present() {
    assert_eq!(manifest_version(&doc()).unwrap().as_deref(), Some("1.3"));
    assert_eq!(manifest_version(b"{\"files\": []}").unwrap(), None);
}
