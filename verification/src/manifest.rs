use serde_json::Value;
use vstd::prelude::*;

use crate::entry::{valid_entry_name, EntryModel, FileInfo};
use crate::errors::SyncError;
use crate::text::{lemma_split_no_sep, lemma_split_nonempty, spec_split, split_on};

verus! {

/// Model of one decoded descriptor: its three fields as plain values.
#[verifier::ext_equal]
pub struct DescModel {
    pub path: Option<Seq<char>>,
    pub downloads: Option<Seq<Option<Seq<char>>>>,
    pub sha512: Option<Seq<char>>,
}

/// What one file descriptor of the manifest document yields, reduced to
/// plain values.  A field is absent when the document lacks it or gives
/// it another shape; a downloads element that is not text becomes an
/// absent element, so that the choice of URL stays in verified code.
pub struct RawDescriptor {
    /// The declared path, when present and textual.
    pub path: Option<String>,
    /// The downloads list, when present: one element per listed URL,
    /// textual ones kept.
    pub downloads: Option<Vec<Option<String>>>,
    /// The digest under the `sha512` key of the descriptor's hash map.
    pub sha512: Option<String>,
}

impl DeepView for RawDescriptor {
    type V = DescModel;

    open spec fn deep_view(&self) -> DescModel {
        DescModel {
            path: self.path.deep_view(),
            downloads: self.downloads.deep_view(),
            sha512: self.sha512.deep_view(),
        }
    }
}

/// The file descriptors the manifest document holds: `None` when the
/// document does not parse at all; `Some(None)` when it parses but
/// carries no `files` list; otherwise the descriptors' plain fields, in
/// document order.
pub uninterp spec fn manifest_files_of(bytes: Seq<u8>) -> Option<Option<Seq<DescModel>>>;

/// The document's top-level version identifier: `None` when the document
/// does not parse; `Some(None)` when it parses but carries no textual
/// `versionId` field.
pub uninterp spec fn manifest_version_of(bytes: Seq<u8>) -> Option<Option<Seq<char>>>;

#[verifier::external_type_specification]
#[verifier::external_body]
pub struct ExSerdeJsonError(serde_json::Error);

/// Relies on serde_json::from_slice and the plain accessors of
/// serde_json::Value (get, as_array, as_str): what they yield is a
/// deterministic function of the document bytes.
#[verifier::external_body]
fn decode_descriptors(bytes: &[u8]) -> (r: Result<Option<Vec<RawDescriptor>>, serde_json::Error>)
    ensures
        r matches Ok(ds) ==> manifest_files_of(bytes@) == Some(ds.deep_view()),
        r is Err ==> manifest_files_of(bytes@) is None,
{
    let doc: Value = serde_json::from_slice(bytes)?;
    let arr = match doc.get("files").and_then(Value::as_array) {
        None => return Ok(None),
        Some(a) => a,
    };
    let text = |v: &Value| v.as_str().map(|s| s.to_string());
    Ok(Some(arr.iter().map(|d| RawDescriptor {
        path: d.get("path").and_then(text),
        downloads: d.get("downloads").and_then(Value::as_array).map(|w| w.iter().map(text).collect()),
        sha512: d.get("hashes").and_then(|h| h.get("sha512")).and_then(text),
    }).collect()))
}

/// Relies on serde_json::from_slice and the Value accessors: the version
/// field is a deterministic function of the document bytes.
#[verifier::external_body]
fn decode_version(bytes: &[u8]) -> (r: Result<Option<String>, serde_json::Error>)
    ensures
        r matches Ok(v) ==> manifest_version_of(bytes@) == Some(v.deep_view()),
        r is Err ==> manifest_version_of(bytes@) is None,
{
    let doc: serde_json::Value = serde_json::from_slice(bytes)?;
    Ok(doc.get("versionId").and_then(|v| v.as_str()).map(|s| s.to_string()))
}

/// The path has a `mods` directory segment: some piece before the last
/// one is exactly `mods`.
pub open spec fn has_mods_segment(segs: Seq<Seq<char>>) -> bool {
    exists|i: int| 0 <= i < segs.len() - 1 && segs[i] == "mods"@
}

/// The first listed download URL, which is authoritative: present only
/// when the list has a first element and it is textual.
pub open spec fn first_download(ds: Option<Seq<Option<Seq<char>>>>) -> Option<Seq<char>> {
    match ds {
        None => None,
        Some(urls) => if urls.len() == 0 {
            None
        } else {
            urls[0]
        },
    }
}

/// The declared entry one descriptor yields: nothing when the descriptor
/// lacks a path or a first download URL, or when its path has no `mods`
/// segment; in hash-aware mode also nothing when it carries no `sha512`
/// digest.  Otherwise an entry named by the path's last segment.
pub open spec fn spec_descriptor_entry(d: DescModel, hash_aware: bool) -> Option<EntryModel> {
    match d.path {
        None => None,
        Some(p) => {
            let segs = spec_split(p, '/');
            if !has_mods_segment(segs) {
                None
            } else {
                match first_download(d.downloads) {
                    None => None,
                    Some(u) => if hash_aware {
                        match d.sha512 {
                            None => None,
                            Some(digest) => Some(
                                EntryModel { name: segs.last(), url: Some(u), hash: Some(digest) },
                            ),
                        }
                    } else {
                        Some(EntryModel { name: segs.last(), url: Some(u), hash: None })
                    },
                }
            }
        },
    }
}

/// The declared inventory a descriptor list yields, in document order.
pub open spec fn spec_selected_entries(ds: Seq<DescModel>, hash_aware: bool) -> Seq<EntryModel>
    decreases ds.len(),
{
    if ds.len() == 0 {
        Seq::empty()
    } else {
        let rest = spec_selected_entries(ds.drop_last(), hash_aware);
        match spec_descriptor_entry(ds.last(), hash_aware) {
            None => rest,
            Some(e) => rest.push(e),
        }
    }
}

/// A parsed document with no `files` list declares no descriptors.
pub open spec fn descs_or_empty(fs: Option<Seq<DescModel>>) -> Seq<DescModel> {
    match fs {
        None => Seq::empty(),
        Some(ds) => ds,
    }
}

/// Whether some piece before the last one is exactly `mods`.
fn has_mods_piece(segs: &Vec<String>) -> (r: bool)
    ensures
        r == has_mods_segment(segs.deep_view()),
{
    if segs.len() == 0 {
        return false;
    }
    let mods: String = "mods".to_owned();
    let n = segs.len() - 1;
    let mut i: usize = 0;
    while i < n
        invariant
            0 <= i <= n,
            n == segs.len() - 1,
            segs.len() >= 1,
            mods@ == "mods"@,
            forall|k: int| 0 <= k < i ==> segs.deep_view()[k] != "mods"@,
        decreases n - i,
    {
        proof {
            assert(segs.deep_view()[i as int] == segs@[i as int].deep_view());
        }
        if segs[i] == mods {
            proof {
                assert(segs.deep_view()[i as int] == "mods"@);
            }
            return true;
        }
        i = i + 1;
    }
    false
}

/// The first listed download URL, when the list is present, non-empty
/// and its first element textual.
fn first_url_of(ds: &Option<Vec<Option<String>>>) -> (r: Option<String>)
    ensures
        r.deep_view() == first_download(ds.deep_view()),
{
    match ds {
        None => None,
        Some(urls) => {
            if urls.len() == 0 {
                None
            } else {
                proof {
                    assert(urls.deep_view()[0] == urls@[0].deep_view());
                }
                match &urls[0] {
                    None => None,
                    Some(u) => Some(u.clone()),
                }
            }
        },
    }
}

/// The declared entry one descriptor yields, per the selection model.
fn descriptor_entry(d: &RawDescriptor, hash_aware: bool) -> (r: Option<FileInfo>)
    ensures
        r.deep_view() == spec_descriptor_entry(d.deep_view(), hash_aware),
{
    let path = match &d.path {
        None => {
            return None;
        },
        Some(p) => p,
    };
    let segs = split_on(path.as_str(), '/');
    let ghost gsegs = spec_split(path@, '/');
    if !has_mods_piece(&segs) {
        return None;
    }
    let url = match first_url_of(&d.downloads) {
        None => {
            return None;
        },
        Some(u) => u,
    };
    proof {
        lemma_split_nonempty(path@, '/');
        lemma_split_no_sep(path@, '/');
        assert(segs.deep_view()[segs@.len() - 1] == segs@[segs@.len() - 1].deep_view());
        assert(valid_entry_name(gsegs.last()));
    }
    let name = segs[segs.len() - 1].clone();
    if hash_aware {
        match &d.sha512 {
            None => None,
            Some(digest) => Some(FileInfo::new(name, Some(url), Some(digest.clone()))),
        }
    } else {
        Some(FileInfo::new(name, Some(url), None))
    }
}

/// Decodes the manifest document and yields one declared entry per
/// descriptor under a `mods` path segment, taking the first listed
/// download URL as authoritative.  In hash-aware mode a descriptor
/// without a `sha512` digest is dropped, forcing a redownload rather
/// than risking silent staleness; in hash-blind mode every qualifying
/// descriptor is kept and the digest left empty.  Malformed descriptors
/// are skipped one by one; only a document that does not parse at all
/// is an error.
pub fn parse_mod_entries(bytes: &[u8], hash_aware: bool) -> (r: Result<Vec<FileInfo>, SyncError>)
    ensures
        r matches Ok(es) ==> (manifest_files_of(bytes@) matches Some(fs) && es.deep_view()
            == spec_selected_entries(descs_or_empty(fs), hash_aware)),
        r is Err <==> manifest_files_of(bytes@) is None,
        r is Err ==> r == Err::<Vec<FileInfo>, SyncError>(SyncError::MalformedManifest),
{
    let ds = match decode_descriptors(bytes) {
        Err(_) => {
            return Err(SyncError::MalformedManifest);
        },
        Ok(None) => {
            let es: Vec<FileInfo> = Vec::new();
            proof {
                assert(es.deep_view() =~= spec_selected_entries(
                    descs_or_empty(None),
                    hash_aware,
                ));
            }
            return Ok(es);
        },
        Ok(Some(ds)) => ds,
    };
    let mut out: Vec<FileInfo> = Vec::new();
    let mut i: usize = 0;
    proof {
        assert(out.deep_view() =~= spec_selected_entries(
            ds.deep_view().subrange(0, 0),
            hash_aware,
        ));
    }
    while i < ds.len()
        invariant
            0 <= i <= ds.len(),
            out.deep_view() == spec_selected_entries(ds.deep_view().subrange(0, i as int), hash_aware),
        decreases ds.len() - i,
    {
        let ghost pre_v = out@;
        let ghost pre = out.deep_view();
        proof {
            assert(ds.deep_view()[i as int] == ds@[i as int].deep_view());
        }
        match descriptor_entry(&ds[i], hash_aware) {
            None => {
            },
            Some(e) => {
                out.push(e);
                proof {
                    assert(out@ == pre_v.push(e));
                    assert forall|k: int| 0 <= k < out@.len() implies out.deep_view()[k] == pre.push(
                        e.deep_view(),
                    )[k] by {
                        assert(out.deep_view()[k] == out@[k].deep_view());
                        if k < pre_v.len() {
                            assert(out@[k] == pre_v.push(e)[k]);
                            assert(pre_v.push(e)[k] == pre_v[k]);
                            assert(pre[k] == pre_v[k].deep_view());
                        } else {
                            assert(out@[k] == e);
                        }
                    }
                    assert(out.deep_view() =~= pre.push(e.deep_view()));
                }
            },
        }
        proof {
            let all = ds.deep_view();
            assert(all.subrange(0, i + 1).drop_last() =~= all.subrange(0, i as int));
            assert(all.subrange(0, i + 1).last() == all[i as int]);
        }
        i = i + 1;
    }
    proof {
        assert(ds.deep_view().subrange(0, ds.len() as int) =~= ds.deep_view());
    }
    Ok(out)
}

/// Reads the manifest's declared version identifier.
pub fn manifest_version(bytes: &[u8]) -> (r: Result<Option<String>, SyncError>)
    ensures
        r matches Ok(v) ==> manifest_version_of(bytes@) == Some(v.deep_view()),
        r is Err <==> manifest_version_of(bytes@) is None,
        r is Err ==> r == Err::<Option<String>, SyncError>(SyncError::MalformedManifest),
{
    match decode_version(bytes) {
        Ok(v) => Ok(v),
        Err(_) => Err(SyncError::MalformedManifest),
    }
}

} // verus!
