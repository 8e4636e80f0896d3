use vstd::prelude::*;
use vstd::string::StrSliceExecFns;
use vstd::string::StringExecFns;

use crate::errors::SyncError;
use crate::text::{
    first_index_where, has_suffix, join_slash, lemma_first_index_where, spec_join, spec_split,
    split_on, str_ends_with,
};

verus! {

/// The members of an archive as its index lists them (members with the
/// same name collapse to one): each one's decoded name and, when the
/// member decompresses, its bytes — `None` in their place when that one
/// member cannot be read.  `None` overall when the bytes are not a
/// readable archive.
pub uninterp spec fn zip_entries_of(bytes: Seq<u8>) -> Option<Seq<(Seq<char>, Option<Seq<u8>>)>>;

#[verifier::external_type_specification]
#[verifier::external_body]
pub struct ExZipError(zip::result::ZipError);

/// Relies on zip::ZipArchive::new and ::len: whether the archive opens,
/// and how many members it holds, are deterministic functions of its
/// bytes.
#[verifier::external_body]
fn zip_count(bytes: &[u8]) -> (r: Result<usize, zip::result::ZipError>)
    ensures
        r matches Ok(n) ==> (zip_entries_of(bytes@) matches Some(es) && es.len() == n),
        r is Err ==> zip_entries_of(bytes@) is None,
{
    let archive = zip::ZipArchive::new(std::io::Cursor::new(bytes))?;
    Ok(archive.len())
}

/// Relies on zip::ZipArchive::name_for_index: the name of member `i`
/// from the central directory, present exactly for indices below the
/// member count.
#[verifier::external_body]
fn zip_name(bytes: &[u8], i: usize) -> (r: Result<Option<String>, zip::result::ZipError>)
    ensures
        r matches Ok(Some(n)) ==> (zip_entries_of(bytes@) matches Some(es) && i < es.len() && n@
            == es[i as int].0),
        r matches Ok(None) ==> (zip_entries_of(bytes@) matches Some(es) && i >= es.len()),
        r is Err ==> zip_entries_of(bytes@) is None,
{
    let archive = zip::ZipArchive::new(std::io::Cursor::new(bytes))?;
    Ok(archive.name_for_index(i).map(|s| s.to_string()))
}

/// Relies on zip::ZipArchive::by_index and Read::read_to_end: whether
/// member `i` of a readable archive decompresses, and to which bytes,
/// is a deterministic function of the archive bytes and the index.
#[verifier::external_body]
fn zip_data(bytes: &[u8], i: usize) -> (r: Result<Vec<u8>, zip::result::ZipError>)
    ensures
        zip_entries_of(bytes@) matches Some(es) ==> (i < es.len() ==> (match es[i as int].1 {
            Some(d) => r matches Ok(v) && v@ == d,
            None => r is Err,
        })),
        r matches Ok(v) ==> (zip_entries_of(bytes@) matches Some(es) && i < es.len()
            && es[i as int].1 == Some(v@)),
{
    let mut archive = zip::ZipArchive::new(std::io::Cursor::new(bytes))?;
    let mut member = archive.by_index(i)?;
    let mut out = Vec::new();
    std::io::Read::read_to_end(&mut member, &mut out)?;
    Ok(out)
}

/// An archive member is a directory exactly when its name ends in a
/// separator.
pub open spec fn zip_entry_is_dir(name: Seq<char>) -> bool {
    name.len() > 0 && (name.last() == '/' || name.last() == '\\')
}

/// Member `k` ends with the inner-payload extension.
pub open spec fn payload_pred(es: Seq<(Seq<char>, Option<Seq<u8>>)>) -> spec_fn(int) -> bool {
    |k: int| has_suffix(es[k].0, ".mrpack"@)
}

/// The first member ending with the inner-payload extension.
pub open spec fn first_payload(es: Seq<(Seq<char>, Option<Seq<u8>>)>) -> Option<int> {
    first_index_where(payload_pred(es), 0, es.len() as int)
}

/// Member `k` carries exactly this name.
pub open spec fn named_pred(es: Seq<(Seq<char>, Option<Seq<u8>>)>, name: Seq<char>) -> spec_fn(
    int,
) -> bool {
    |k: int| es[k].0 == name
}

/// The first member with exactly this name.
pub open spec fn first_named(es: Seq<(Seq<char>, Option<Seq<u8>>)>, name: Seq<char>) -> Option<
    int,
> {
    first_index_where(named_pred(es, name), 0, es.len() as int)
}

/// Stage one of the archive resolver: find the member of the outer
/// bundle whose name ends with the inner-payload extension and read it
/// whole.  Success is owed whenever that member exists and decompresses.
/// `MissingPayload` comes exactly when the bundle opens and no member so
/// ends — fatal, there is nothing to install.  `IoError` comes exactly
/// when the bundle does not open as an archive, or the payload member
/// itself cannot be read.
pub fn find_payload(bytes: &Vec<u8>) -> (r: Result<Vec<u8>, SyncError>)
    ensures
        r matches Ok(d) ==> (zip_entries_of(bytes@) matches Some(es) && first_payload(es) matches
            Some(i) && es[i].1 == Some(d@)),
        r == Err::<Vec<u8>, SyncError>(SyncError::MissingPayload) <==> (zip_entries_of(bytes@) matches
            Some(es) && first_payload(es) is None),
        r == Err::<Vec<u8>, SyncError>(SyncError::IoError) <==> (zip_entries_of(bytes@) is None || (
        zip_entries_of(bytes@) matches Some(es) && first_payload(es) matches Some(i) && es[i].1
            is None)),
        r is Err ==> (r == Err::<Vec<u8>, SyncError>(SyncError::MissingPayload) || r == Err::<
            Vec<u8>,
            SyncError,
        >(SyncError::IoError)),
{
    let n = match zip_count(bytes.as_slice()) {
        Err(_) => {
            return Err(SyncError::IoError);
        },
        Ok(n) => n,
    };
    let ghost es = zip_entries_of(bytes@)->0;
    let mut i: usize = 0;
    while i < n
        invariant
            0 <= i <= n,
            zip_entries_of(bytes@) == Some(es),
            es.len() == n,
            forall|k: int| 0 <= k < i ==> !#[trigger] payload_pred(es)(k),
        decreases n - i,
    {
        let name = match zip_name(bytes.as_slice(), i) {
            Ok(Some(nm)) => nm,
            Ok(None) => {
                proof {
                    assert(false);
                }
                return Err(SyncError::IoError);
            },
            Err(_) => {
                proof {
                    assert(false);
                }
                return Err(SyncError::IoError);
            },
        };
        if str_ends_with(name.as_str(), ".mrpack") {
            proof {
                lemma_first_index_where(payload_pred(es), 0, es.len() as int);
                assert(payload_pred(es)(i as int));
                assert(first_payload(es) == Some(i as int));
            }
            match zip_data(bytes.as_slice(), i) {
                Ok(d) => {
                    return Ok(d);
                },
                Err(_) => {
                    proof {
                        assert(es[i as int].1 is None);
                    }
                    return Err(SyncError::IoError);
                },
            }
        }
        proof {
            assert(!payload_pred(es)(i as int));
        }
        i = i + 1;
    }
    proof {
        lemma_first_index_where(payload_pred(es), 0, es.len() as int);
        assert(first_payload(es) is None);
    }
    Err(SyncError::MissingPayload)
}

/// Reads the member with exactly this name, whole.  Success is owed:
/// `Ok(Some)` with the member's bytes exactly when the archive opens,
/// a member bears the name, and it decompresses; `Ok(None)` exactly
/// when the archive opens and no member bears the name; `IoError`
/// exactly when the archive does not open or the named member cannot
/// be read.
pub fn find_entry_data(bytes: &Vec<u8>, name: &str) -> (r: Result<Option<Vec<u8>>, SyncError>)
    ensures
        zip_entries_of(bytes@) matches Some(es) ==> (match first_named(es, name@) {
            None => r == Ok::<Option<Vec<u8>>, SyncError>(None),
            Some(i) => (match es[i].1 {
                Some(d) => r matches Ok(Some(v)) && v@ == d,
                None => r == Err::<Option<Vec<u8>>, SyncError>(SyncError::IoError),
            }),
        }),
        zip_entries_of(bytes@) is None ==> r == Err::<Option<Vec<u8>>, SyncError>(
            SyncError::IoError,
        ),
        r is Err ==> r == Err::<Option<Vec<u8>>, SyncError>(SyncError::IoError),
{
    let n = match zip_count(bytes.as_slice()) {
        Err(_) => {
            return Err(SyncError::IoError);
        },
        Ok(n) => n,
    };
    let ghost es = zip_entries_of(bytes@)->0;
    let owned_name: String = name.to_owned();
    let mut i: usize = 0;
    while i < n
        invariant
            0 <= i <= n,
            zip_entries_of(bytes@) == Some(es),
            es.len() == n,
            owned_name@ == name@,
            forall|k: int| 0 <= k < i ==> !#[trigger] named_pred(es, name@)(k),
        decreases n - i,
    {
        let member = match zip_name(bytes.as_slice(), i) {
            Ok(Some(nm)) => nm,
            Ok(None) => {
                proof {
                    assert(false);
                }
                return Err(SyncError::IoError);
            },
            Err(_) => {
                proof {
                    assert(false);
                }
                return Err(SyncError::IoError);
            },
        };
        if member == owned_name {
            proof {
                lemma_first_index_where(named_pred(es, name@), 0, es.len() as int);
                assert(named_pred(es, name@)(i as int));
                assert(first_named(es, name@) == Some(i as int));
            }
            match zip_data(bytes.as_slice(), i) {
                Ok(d) => {
                    return Ok(Some(d));
                },
                Err(_) => {
                    proof {
                        assert(es[i as int].1 is None);
                    }
                    return Err(SyncError::IoError);
                },
            }
        }
        proof {
            assert(!named_pred(es, name@)(i as int));
        }
        i = i + 1;
    }
    proof {
        lemma_first_index_where(named_pred(es, name@), 0, es.len() as int);
        assert(first_named(es, name@) is None);
    }
    Ok(None)
}

/// Pieces `k` and `k + 1` are the window (`overrides`, `sub`).
pub open spec fn window_pred(segs: Seq<Seq<char>>, sub: Seq<char>) -> spec_fn(int) -> bool {
    |k: int| segs[k] == "overrides"@ && segs[k + 1] == sub
}

/// The first window (`overrides`, `sub`) among the path's pieces.
pub open spec fn first_window(segs: Seq<Seq<char>>, sub: Seq<char>) -> Option<int> {
    first_index_where(window_pred(segs, sub), 0, segs.len() - 1)
}

/// Some piece is `..`: a path joined from these pieces steps upward.
pub open spec fn has_upward(segs: Seq<Seq<char>>) -> bool {
    exists|k: int| 0 <= k < segs.len() && segs[k] == ".."@
}

/// Classifying a member path: the first window (`overrides`, subdir) for
/// the subdirectories `mods`, `shaderpacks`, `resourcepacks`, in that
/// order of priority, names the destination subdirectory; what follows
/// the window is the destination-relative path.  A member matching none
/// of the three is not installable content and extracts nowhere; neither
/// does one whose relative path holds a `..` piece, since the
/// destination must stay below the pack's subdirectory.
pub open spec fn spec_classify(name: Seq<char>) -> Option<(Seq<char>, Seq<char>)> {
    let segs = spec_split(name, '/');
    match first_window(segs, "mods"@) {
        Some(i) => if has_upward(segs.subrange(i + 2, segs.len() as int)) {
            None
        } else {
            Some(("mods"@, spec_join(segs.subrange(i + 2, segs.len() as int), '/')))
        },
        None => match first_window(segs, "shaderpacks"@) {
            Some(i) => if has_upward(segs.subrange(i + 2, segs.len() as int)) {
                None
            } else {
                Some(("shaderpacks"@, spec_join(segs.subrange(i + 2, segs.len() as int), '/')))
            },
            None => match first_window(segs, "resourcepacks"@) {
                Some(i) => if has_upward(segs.subrange(i + 2, segs.len() as int)) {
                    None
                } else {
                    Some(
                        ("resourcepacks"@, spec_join(
                            segs.subrange(i + 2, segs.len() as int),
                            '/',
                        )),
                    )
                },
                None => None,
            },
        },
    }
}

/// The destination below the pack directory: the subdirectory itself
/// when the relative path is empty, else the two joined.
pub open spec fn spec_dest(sub: Seq<char>, rel: Seq<char>) -> Seq<char> {
    if rel.len() == 0 {
        sub
    } else {
        sub + seq!['/'] + rel
    }
}

/// The first window (`overrides`, `sub`) among the pieces, scanned from
/// the front.
fn find_window(segs: &Vec<String>, sub: &str) -> (r: Option<usize>)
    ensures
        r matches Some(i) ==> (first_window(segs.deep_view(), sub@) == Some(i as int) && i + 2
            <= segs.len()),
        r is None ==> first_window(segs.deep_view(), sub@) is None,
{
    let ghost gsegs = segs.deep_view();
    if segs.len() < 2 {
        proof {
            assert(first_window(gsegs, sub@) is None);
        }
        return None;
    }
    let overrides_piece: String = "overrides".to_owned();
    let sub_piece: String = sub.to_owned();
    let n = segs.len() - 1;
    let mut i: usize = 0;
    while i < n
        invariant
            0 <= i <= n,
            n == segs.len() - 1,
            segs.len() >= 2,
            gsegs == segs.deep_view(),
            overrides_piece@ == "overrides"@,
            sub_piece@ == sub@,
            forall|k: int| 0 <= k < i ==> !#[trigger] window_pred(gsegs, sub@)(k),
        decreases n - i,
    {
        proof {
            assert(segs.deep_view()[i as int] == segs@[i as int].deep_view());
            assert(segs.deep_view()[i + 1] == segs@[i + 1].deep_view());
        }
        if segs[i] == overrides_piece && segs[i + 1] == sub_piece {
            proof {
                lemma_first_index_where(window_pred(gsegs, sub@), 0, gsegs.len() - 1);
                assert(window_pred(gsegs, sub@)(i as int));
                assert(first_window(gsegs, sub@) == Some(i as int));
            }
            return Some(i);
        }
        proof {
            assert(!window_pred(gsegs, sub@)(i as int));
        }
        i = i + 1;
    }
    proof {
        lemma_first_index_where(window_pred(gsegs, sub@), 0, gsegs.len() - 1);
        assert(first_window(gsegs, sub@) is None);
    }
    None
}

/// Whether some piece at or after `from` is `..`.
fn has_upward_piece(segs: &Vec<String>, from: usize) -> (r: bool)
    requires
        from <= segs.len(),
    ensures
        r == has_upward(segs.deep_view().subrange(from as int, segs.len() as int)),
{
    let ghost tail = segs.deep_view().subrange(from as int, segs.len() as int);
    let upward: String = "..".to_owned();
    let mut i: usize = from;
    while i < segs.len()
        invariant
            from <= i <= segs.len(),
            upward@ == ".."@,
            tail == segs.deep_view().subrange(from as int, segs.len() as int),
            forall|k: int| from <= k < i ==> segs.deep_view()[k] != ".."@,
        decreases segs.len() - i,
    {
        proof {
            assert(segs.deep_view()[i as int] == segs@[i as int].deep_view());
        }
        if segs[i] == upward {
            proof {
                assert(tail[i - from] == ".."@);
            }
            return true;
        }
        i = i + 1;
    }
    proof {
        assert forall|k: int| 0 <= k < tail.len() implies tail[k] != ".."@ by {
            assert(tail[k] == segs.deep_view()[from + k]);
        }
    }
    false
}

/// Classifies one member path, as the classification model says: the
/// destination subdirectory and the path below it.
pub fn classify_override_path(name: &str) -> (r: Option<(String, String)>)
    ensures
        r.deep_view() == spec_classify(name@),
{
    let segs = split_on(name, '/');
    if let Some(i) = find_window(&segs, "mods") {
        if has_upward_piece(&segs, i + 2) {
            return None;
        }
        let rel = join_slash(&segs, i + 2);
        return Some(("mods".to_owned(), rel));
    }
    if let Some(i) = find_window(&segs, "shaderpacks") {
        if has_upward_piece(&segs, i + 2) {
            return None;
        }
        let rel = join_slash(&segs, i + 2);
        return Some(("shaderpacks".to_owned(), rel));
    }
    if let Some(i) = find_window(&segs, "resourcepacks") {
        if has_upward_piece(&segs, i + 2) {
            return None;
        }
        let rel = join_slash(&segs, i + 2);
        return Some(("resourcepacks".to_owned(), rel));
    }
    None
}

/// Model of one extraction step.
#[verifier::ext_equal]
pub struct TargetModel {
    pub index: int,
    pub dest: Seq<char>,
    pub is_dir: bool,
}

/// One extraction step: which member to take, the destination path below
/// the pack directory, and whether it is a directory to create rather
/// than a file to write.
#[derive(Clone, Debug, PartialEq, Eq)]
pub struct ExtractTarget {
    /// The member's index in the payload archive.
    pub index: usize,
    /// Destination path relative to the pack directory.
    pub dest: String,
    /// The member is a directory: create it, write nothing.
    pub is_dir: bool,
}

impl DeepView for ExtractTarget {
    type V = TargetModel;

    open spec fn deep_view(&self) -> TargetModel {
        TargetModel { index: self.index as int, dest: self.dest@, is_dir: self.is_dir }
    }
}

/// The extraction step member `k` yields, if its path classifies.
pub open spec fn spec_target_of(name: Seq<char>, k: int) -> Option<TargetModel> {
    match spec_classify(name) {
        None => None,
        Some(c) => Some(
            TargetModel { index: k, dest: spec_dest(c.0, c.1), is_dir: zip_entry_is_dir(name) },
        ),
    }
}

/// The extraction plan of a member list, in archive order.
pub open spec fn spec_targets(es: Seq<(Seq<char>, Option<Seq<u8>>)>) -> Seq<TargetModel>
    decreases es.len(),
{
    if es.len() == 0 {
        Seq::empty()
    } else {
        let rest = spec_targets(es.drop_last());
        match spec_target_of(es.last().0, es.len() - 1) {
            None => rest,
            Some(t) => rest.push(t),
        }
    }
}

/// The destination below the pack directory, per the destination model.
fn dest_path(sub: String, rel: String) -> (r: String)
    ensures
        r@ == spec_dest(sub@, rel@),
{
    if rel.unicode_len() == 0 {
        proof {
            assert(rel@ =~= Seq::<char>::empty());
        }
        sub
    } else {
        proof {
            reveal_strlit("/");
            assert("/"@ =~= seq!['/']);
        }
        sub.concat("/").concat(rel.as_str())
    }
}

/// Whether the member name marks a directory.
fn name_is_dir(name: &str) -> (r: bool)
    ensures
        r == zip_entry_is_dir(name@),
{
    let n = name.unicode_len();
    if n == 0 {
        return false;
    }
    let c = name.get_char(n - 1);
    c == '/' || c == '\\'
}

/// Stage two of the archive resolver: the full extraction plan of the
/// payload archive — every member under one of the three override
/// subdirectories, with its destination path, in archive order.  Members
/// under no recognized subdirectory belong to override categories out of
/// scope and are left out.  Fails only when the bytes are not a readable
/// archive.
pub fn extraction_targets(bytes: &Vec<u8>) -> (r: Result<Vec<ExtractTarget>, SyncError>)
    ensures
        r matches Ok(ts) ==> (zip_entries_of(bytes@) matches Some(es) && ts.deep_view()
            == spec_targets(es)),
        r is Err <==> zip_entries_of(bytes@) is None,
        r is Err ==> r == Err::<Vec<ExtractTarget>, SyncError>(SyncError::IoError),
{
    let n = match zip_count(bytes.as_slice()) {
        Err(_) => {
            return Err(SyncError::IoError);
        },
        Ok(n) => n,
    };
    let ghost es = zip_entries_of(bytes@)->0;
    let mut out: Vec<ExtractTarget> = Vec::new();
    let mut i: usize = 0;
    proof {
        assert(out.deep_view() =~= spec_targets(es.subrange(0, 0)));
    }
    while i < n
        invariant
            0 <= i <= n,
            zip_entries_of(bytes@) == Some(es),
            es.len() == n,
            out.deep_view() == spec_targets(es.subrange(0, i as int)),
        decreases n - i,
    {
        let name = match zip_name(bytes.as_slice(), i) {
            Ok(Some(nm)) => nm,
            Ok(None) => {
                proof {
                    assert(false);
                }
                return Err(SyncError::IoError);
            },
            Err(_) => {
                proof {
                    assert(false);
                }
                return Err(SyncError::IoError);
            },
        };
        let ghost pre_v = out@;
        let ghost pre = out.deep_view();
        match classify_override_path(name.as_str()) {
            None => {
            },
            Some((sub, rel)) => {
                let is_dir = name_is_dir(name.as_str());
                let t = ExtractTarget { index: i, dest: dest_path(sub, rel), is_dir };
                proof {
                    assert(t.deep_view() == spec_target_of(es[i as int].0, i as int)->0);
                }
                out.push(t);
                proof {
                    assert(out@ == pre_v.push(t));
                    assert forall|k: int| 0 <= k < out@.len() implies out.deep_view()[k] == pre.push(
                        t.deep_view(),
                    )[k] by {
                        assert(out.deep_view()[k] == out@[k].deep_view());
                        if k < pre_v.len() {
                            assert(out@[k] == pre_v.push(t)[k]);
                            assert(pre_v.push(t)[k] == pre_v[k]);
                            assert(pre[k] == pre_v[k].deep_view());
                        } else {
                            assert(out@[k] == t);
                        }
                    }
                    assert(out.deep_view() =~= pre.push(t.deep_view()));
                }
            },
        }
        proof {
            assert(es.subrange(0, i + 1).drop_last() =~= es.subrange(0, i as int));
            assert(es.subrange(0, i + 1).last() == es[i as int]);
        }
        i = i + 1;
    }
    proof {
        assert(es.subrange(0, es.len() as int) =~= es);
    }
    Ok(out)
}

/// Reads one member's decompressed bytes, for the driver to write at the
/// planned destination.  Success is owed for a readable member of a
/// readable archive; `IoError` comes exactly when the archive does not
/// open, the index is out of range, or that one member cannot be read —
/// a failure touches this member alone, and the caller skips it and
/// goes on.
pub fn entry_data(bytes: &Vec<u8>, index: usize) -> (r: Result<Vec<u8>, SyncError>)
    ensures
        zip_entries_of(bytes@) matches Some(es) ==> (index < es.len() ==> (match es[index as int].1 {
            Some(d) => r matches Ok(v) && v@ == d,
            None => r == Err::<Vec<u8>, SyncError>(SyncError::IoError),
        })),
        r matches Ok(v) ==> (zip_entries_of(bytes@) matches Some(es) && index < es.len()
            && es[index as int].1 == Some(v@)),
        r is Err ==> r == Err::<Vec<u8>, SyncError>(SyncError::IoError),
{
    match zip_data(bytes.as_slice(), index) {
        Ok(d) => Ok(d),
        Err(_) => Err(SyncError::IoError),
    }
}

} // verus!
