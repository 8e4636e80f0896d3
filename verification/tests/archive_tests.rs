use std::io::Cursor;
use std::io::Write;

use packsync::archive::{
    classify_override_path, entry_data, extraction_targets, find_entry_data, find_payload,
};
use packsync::errors::SyncError;
use zip::write::SimpleFileOptions;
use zip::ZipWriter;

fn build_zip(files: &[(&str, &[u8])], dirs: &[&str]) -> Vec<u8> {
    let mut w = ZipWriter::new(Cursor::new(Vec::new()));
    let opts = SimpleFileOptions::default();
    for d in dirs {
        w.add_directory(d.to_string(), opts).unwrap();
    }
    for (name, data) in files {
        w.start_file(name.to_string(), opts).unwrap();
        w.write_all(data).unwrap();
    }
    w.finish().unwrap().into_inner()
}

#[test]
fn payload_is_the_first_member_with_the_extension() {
    let inner = b"inner payload bytes".to_vec();
    let outer = build_zip(
        &[("readme.txt", b"hello"), ("release.mrpack", &inner), ("later.mrpack", b"nope")],
        &[],
    );
    let got = find_payload(&outer).unwrap();
    assert_eq!(got, inner);
}

#[test]
fn bundle_without_payload_is_missing_payload() {
    let outer = build_zip(&[("readme.txt", b"hello"), ("data.bin", b"xx")], &[]);
    assert_eq!(find_payload(&outer).unwrap_err(), SyncError::MissingPayload);
}

#[test]
fn unreadable_bundle_is_an_io_error() {
    let junk = b"this is not an archive at all".to_vec();
    assert_eq!(find_payload(&junk).unwrap_err(), SyncError::IoError);
    assert_eq!(extraction_targets(&junk).unwrap_err(), SyncError::IoError);
}

#[test]
fn mods_entry_extracts_below_the_mods_subdirectory() {
    // an entry at overrides/mods/Foo/bar.jar lands at <pack>/mods/Foo/bar.jar
    let got = classify_override_path("overrides/mods/Foo/bar.jar").unwrap();
    assert_eq!(got.0, "mods");
    assert_eq!(got.1, "Foo/bar.jar");
}

#[test]
fn unrecognized_override_category_extracts_nowhere() {
    assert!(classify_override_path("overrides/config/x.toml").is_none());
    assert!(classify_override_path("somewhere/else.txt").is_none());
    assert!(classify_override_path("mods/direct.jar").is_none());
}

#[test]
fn all_three_subdirectories_are_recognized() {
    let s = classify_override_path("overrides/shaderpacks/glow.zip").unwrap();
    assert_eq!((s.0.as_str(), s.1.as_str()), ("shaderpacks", "glow.zip"));
    let r = classify_override_path("overrides/resourcepacks/pack/icons.png").unwrap();
    assert_eq!((r.0.as_str(), r.1.as_str()), ("resourcepacks", "pack/icons.png"));
    let nested = classify_override_path("wrap/overrides/mods/a.jar").unwrap();
    assert_eq!((nested.0.as_str(), nested.1.as_str()), ("mods", "a.jar"));
}

#[test]
fn extraction_plan_lists_classified_members_in_order() {
    let payload = build_zip(
        &[
            ("modrinth.index.json", b"{}"),
            ("overrides/mods/Foo/bar.jar", b"jarbytes"),
            ("overrides/config/x.toml", b"skip me"),
            ("overrides/shaderpacks/s.zip", b"shader"),
        ],
        &["overrides/mods/Foo"],
    );
    let ts = extraction_targets(&payload).unwrap();
    let plan: Vec<(&str, bool)> = ts.iter().map(|t| (t.dest.as_str(), t.is_dir)).collect();
    // a directory member's name carries a trailing separator, so its
    // destination does too
    assert_eq!(
        plan,
        vec![
            ("mods/Foo/", true),
            ("mods/Foo/bar.jar", false),
            ("shaderpacks/s.zip", false),
        ]
    );
    // the member bytes come out verbatim at the planned index
    let jar = ts.iter().find(|t| t.dest == "mods/Foo/bar.jar").unwrap();
    assert_eq!(entry_data(&payload, jar.index).unwrap(), b"jarbytes".to_vec());
}

#[test]
fn upward_stepping_members_extract_nowhere() {
    assert!(classify_override_path("overrides/mods/../../evil.jar").is_none());
    assert!(classify_override_path("overrides/mods/sub/../a.jar").is_none());
    // an upward piece before the window does not touch the destination
    let ok = classify_override_path("../overrides/mods/a.jar").unwrap();
    assert_eq!((ok.0.as_str(), ok.1.as_str()), ("mods", "a.jar"));
    // and the extraction plan leaves such members out
    let payload = build_zip(
        &[("overrides/mods/../../evil.jar", b"bad"), ("overrides/mods/fine.jar", b"ok")],
        &[],
    );
    let ts = extraction_targets(&payload).unwrap();
    let dests: Vec<&str> = ts.iter().map(|t| t.dest.as_str()).collect();
    assert_eq!(dests, vec!["mods/fine.jar"]);
}

#[test]
fn named_member_is_found_and_read_whole() {
    let payload = build_zip(
        &[("modrinth.index.json", b"{\"files\": []}"), ("overrides/mods/a.jar", b"aa")],
        &[],
    );
    let got = find_entry_data(&payload, "modrinth.index.json").unwrap().unwrap();
    assert_eq!(got, b"{\"files\": []}".to_vec());
    assert_eq!(find_entry_data(&payload, "absent.json").unwrap(), None);
}
