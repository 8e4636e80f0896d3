use vstd::prelude::*;

use crate::entry::{EntryModel, FileInfo};

verus! {

/// Some declared entry carries this name.
pub open spec fn name_declared(ds: Seq<EntryModel>, n: Seq<char>) -> bool {
    exists|i: int| 0 <= i < ds.len() && ds[i].name == n
}

/// Some entry carries this digest value (absent digests compare as
/// absent).
pub open spec fn hash_present(ds: Seq<EntryModel>, h: Option<Seq<char>>) -> bool {
    exists|i: int| 0 <= i < ds.len() && ds[i].hash == h
}

/// A local entry is kept when its name is declared and its digest is
/// among the declared digests.  The digest check is against the set of
/// all declared digests, not a per-name pairing: a renamed but
/// byte-identical file is tolerated, a byte-different file under an
/// expected name is deleted.
pub open spec fn keep_local(e: EntryModel, declared: Seq<EntryModel>) -> bool {
    name_declared(declared, e.name) && hash_present(declared, e.hash)
}

/// The local entries to delete: those not kept, in local order.
pub open spec fn spec_to_delete(local: Seq<EntryModel>, declared: Seq<EntryModel>) -> Seq<
    EntryModel,
>
    decreases local.len(),
{
    if local.len() == 0 {
        Seq::empty()
    } else {
        let rest = spec_to_delete(local.drop_last(), declared);
        if keep_local(local.last(), declared) {
            rest
        } else {
            rest.push(local.last())
        }
    }
}

/// The declared entries to download: those whose digest no local file
/// carries, in declared order.
pub open spec fn spec_to_download(local: Seq<EntryModel>, declared: Seq<EntryModel>) -> Seq<
    EntryModel,
>
    decreases declared.len(),
{
    if declared.len() == 0 {
        Seq::empty()
    } else {
        let rest = spec_to_download(local, declared.drop_last());
        if hash_present(local, declared.last().hash) {
            rest
        } else {
            rest.push(declared.last())
        }
    }
}

/// The whole decision as a pure function of the two inventories and the
/// resync flag: (wipe the content directory, entries to delete, entries
/// to download).
pub open spec fn spec_diff(
    local: Seq<EntryModel>,
    declared: Seq<EntryModel>,
    force_full_resync: bool,
) -> (bool, Seq<EntryModel>, Seq<EntryModel>) {
    if force_full_resync {
        (true, Seq::empty(), declared)
    } else {
        (false, spec_to_delete(local, declared), spec_to_download(local, declared))
    }
}

/// What one sync pass decides to do with the content directory.
#[derive(Debug, PartialEq, Eq)]
pub struct DiffResult {
    /// The caller should wipe and recreate the whole content directory
    /// rather than delete entries one by one.
    pub wipe_all: bool,
    /// Local entries to remove (empty when `wipe_all` is set).
    pub to_delete: Vec<FileInfo>,
    /// Declared entries to fetch.
    pub to_download: Vec<FileInfo>,
}

/// An entry equal to the given one, built field by field.
fn clone_entry(e: &FileInfo) -> (r: FileInfo)
    ensures
        r.deep_view() == e.deep_view(),
{
    let url = match &e.url {
        Some(u) => Some(u.clone()),
        None => None,
    };
    let hash = match &e.hash {
        Some(h) => Some(h.clone()),
        None => None,
    };
    FileInfo { name: e.name.clone(), url, hash }
}

/// Whether the two optional digests are the same.
fn opt_str_eq(a: &Option<String>, b: &Option<String>) -> (r: bool)
    ensures
        r == (a.deep_view() == b.deep_view()),
{
    match (a, b) {
        (None, None) => true,
        (Some(x), Some(y)) => *x == *y,
        _ => false,
    }
}

/// Whether some entry of `ds` carries the name `name`.
fn contains_name(ds: &Vec<FileInfo>, name: &String) -> (r: bool)
    ensures
        r == name_declared(ds.deep_view(), name@),
{
    let mut i: usize = 0;
    while i < ds.len()
        invariant
            0 <= i <= ds.len(),
            forall|k: int| 0 <= k < i ==> ds.deep_view()[k].name != name@,
        decreases ds.len() - i,
    {
        proof {
            assert(ds.deep_view()[i as int] == ds@[i as int].deep_view());
        }
        if ds[i].name == *name {
            proof {
                assert(ds.deep_view()[i as int].name == name@);
            }
            return true;
        }
        i = i + 1;
    }
    false
}

/// Whether some entry of `ds` carries the digest `h`.
fn contains_hash(ds: &Vec<FileInfo>, h: &Option<String>) -> (r: bool)
    ensures
        r == hash_present(ds.deep_view(), h.deep_view()),
{
    let mut i: usize = 0;
    while i < ds.len()
        invariant
            0 <= i <= ds.len(),
            forall|k: int| 0 <= k < i ==> ds.deep_view()[k].hash != h.deep_view(),
        decreases ds.len() - i,
    {
        proof {
            assert(ds.deep_view()[i as int] == ds@[i as int].deep_view());
        }
        if opt_str_eq(&ds[i].hash, h) {
            proof {
                assert(ds.deep_view()[i as int].hash == h.deep_view());
            }
            return true;
        }
        i = i + 1;
    }
    false
}

/// Compares the local inventory against the declared one and decides
/// what to delete and what to download.  With `force_full_resync` the
/// local state is ignored: the whole content directory is to be wiped
/// and every declared entry downloaded.  The decision is pure: it
/// depends on nothing but the arguments.
pub fn compute_diff(
    local: &Vec<FileInfo>,
    declared: &Vec<FileInfo>,
    force_full_resync: bool,
) -> (r: DiffResult)
    ensures
        (r.wipe_all, r.to_delete.deep_view(), r.to_download.deep_view()) == spec_diff(
            local.deep_view(),
            declared.deep_view(),
            force_full_resync,
        ),
{
    if force_full_resync {
        let mut down: Vec<FileInfo> = Vec::new();
        let mut i: usize = 0;
        while i < declared.len()
            invariant
                0 <= i <= declared.len(),
                down.deep_view() =~= declared.deep_view().subrange(0, i as int),
            decreases declared.len() - i,
        {
            let ghost pre_v = down@;
            let ghost pre = down.deep_view();
            let x = clone_entry(&declared[i]);
            proof {
                assert(x.deep_view() == declared.deep_view()[i as int]);
            }
            down.push(x);
            proof {
                assert(down@ == pre_v.push(x));
                assert(pre.len() == pre_v.len());
                assert(pre == declared.deep_view().subrange(0, i as int));
                assert(pre_v.len() == i as int);
                assert forall|k: int| 0 <= k < down@.len() implies down.deep_view()[k]
                    == declared.deep_view().subrange(0, i + 1)[k] by {
                    assert(down.deep_view()[k] == down@[k].deep_view());
                    if k < i as int {
                        assert(down@[k] == pre_v.push(x)[k]);
                        assert(pre_v.push(x)[k] == pre_v[k]);
                        assert(pre[k] == pre_v[k].deep_view());
                    } else {
                        assert(down@[k] == x);
                    }
                }
                assert(down.deep_view() =~= declared.deep_view().subrange(0, i + 1));
            }
            i = i + 1;
        }
        let dele: Vec<FileInfo> = Vec::new();
        proof {
            assert(down.deep_view() =~= declared.deep_view());
            assert(dele.deep_view() =~= Seq::<EntryModel>::empty());
        }
        DiffResult { wipe_all: true, to_delete: dele, to_download: down }
    } else {
        let mut dele: Vec<FileInfo> = Vec::new();
        let mut i: usize = 0;
        proof {
            assert(dele.deep_view() =~= spec_to_delete(
                local.deep_view().subrange(0, 0),
                declared.deep_view(),
            ));
        }
        while i < local.len()
            invariant
                0 <= i <= local.len(),
                dele.deep_view() == spec_to_delete(
                    local.deep_view().subrange(0, i as int),
                    declared.deep_view(),
                ),
            decreases local.len() - i,
        {
            let ghost pre_v = dele@;
            let ghost pre = dele.deep_view();
            proof {
                assert(local.deep_view()[i as int] == local@[i as int].deep_view());
            }
            let e = &local[i];
            if !(contains_name(declared, &e.name) && contains_hash(declared, &e.hash)) {
                let x = clone_entry(e);
                dele.push(x);
                proof {
                    assert(dele@ == pre_v.push(x));
                    assert forall|k: int| 0 <= k < dele@.len() implies dele.deep_view()[k]
                        == pre.push(local.deep_view()[i as int])[k] by {
                        assert(dele.deep_view()[k] == dele@[k].deep_view());
                        if k < pre_v.len() {
                            assert(dele@[k] == pre_v.push(x)[k]);
                            assert(pre_v.push(x)[k] == pre_v[k]);
                            assert(pre[k] == pre_v[k].deep_view());
                        } else {
                            assert(dele@[k] == x);
                        }
                    }
                    assert(dele.deep_view() =~= pre.push(local.deep_view()[i as int]));
                }
            }
            proof {
                let l = local.deep_view();
                assert(l.subrange(0, i + 1).drop_last() =~= l.subrange(0, i as int));
                assert(l.subrange(0, i + 1).last() == l[i as int]);
            }
            i = i + 1;
        }
        let mut down: Vec<FileInfo> = Vec::new();
        let mut j: usize = 0;
        proof {
            assert(local.deep_view().subrange(0, local.len() as int) =~= local.deep_view());
            assert(down.deep_view() =~= spec_to_download(
                local.deep_view(),
                declared.deep_view().subrange(0, 0),
            ));
        }
        while j < declared.len()
            invariant
                0 <= j <= declared.len(),
                down.deep_view() == spec_to_download(
                    local.deep_view(),
                    declared.deep_view().subrange(0, j as int),
                ),
            decreases declared.len() - j,
        {
            let ghost pre_v = down@;
            let ghost pre = down.deep_view();
            proof {
                assert(declared.deep_view()[j as int] == declared@[j as int].deep_view());
            }
            let d = &declared[j];
            if !contains_hash(local, &d.hash) {
                let x = clone_entry(d);
                down.push(x);
                proof {
                    assert(down@ == pre_v.push(x));
                    assert forall|k: int| 0 <= k < down@.len() implies down.deep_view()[k]
                        == pre.push(declared.deep_view()[j as int])[k] by {
                        assert(down.deep_view()[k] == down@[k].deep_view());
                        if k < pre_v.len() {
                            assert(down@[k] == pre_v.push(x)[k]);
                            assert(pre_v.push(x)[k] == pre_v[k]);
                            assert(pre[k] == pre_v[k].deep_view());
                        } else {
                            assert(down@[k] == x);
                        }
                    }
                    assert(down.deep_view() =~= pre.push(declared.deep_view()[j as int]));
                }
            }
            proof {
                let ds = declared.deep_view();
                assert(ds.subrange(0, j + 1).drop_last() =~= ds.subrange(0, j as int));
                assert(ds.subrange(0, j + 1).last() == ds[j as int]);
            }
            j = j + 1;
        }
        proof {
            assert(declared.deep_view().subrange(0, declared.len() as int) =~= declared.deep_view());
        }
        DiffResult { wipe_all: false, to_delete: dele, to_download: down }
    }
}

/// When every local entry fails the keep test, all of them are deleted.
proof fn lemma_to_delete_all(local: Seq<EntryModel>, declared: Seq<EntryModel>)
    requires
        forall|i: int| 0 <= i < local.len() ==> !keep_local(#[trigger] local[i], declared),
    ensures
        spec_to_delete(local, declared) == local,
    decreases local.len(),
{
    if local.len() > 0 {
        lemma_to_delete_all(local.drop_last(), declared);
        assert(spec_to_delete(local, declared) =~= local);
    } else {
        assert(spec_to_delete(local, declared) =~= local);
    }
}

/// When every local entry passes the keep test, nothing is deleted.
proof fn lemma_to_delete_none(local: Seq<EntryModel>, declared: Seq<EntryModel>)
    requires
        forall|i: int| 0 <= i < local.len() ==> keep_local(#[trigger] local[i], declared),
    ensures
        spec_to_delete(local, declared) == Seq::<EntryModel>::empty(),
    decreases local.len(),
{
    if local.len() > 0 {
        lemma_to_delete_none(local.drop_last(), declared);
    }
    assert(spec_to_delete(local, declared) =~= Seq::<EntryModel>::empty());
}

/// When no declared digest is present locally, everything declared is
/// downloaded.
proof fn lemma_to_download_all(local: Seq<EntryModel>, declared: Seq<EntryModel>)
    requires
        forall|j: int|
            0 <= j < declared.len() ==> !hash_present(local, (#[trigger] declared[j]).hash),
    ensures
        spec_to_download(local, declared) == declared,
    decreases declared.len(),
{
    if declared.len() > 0 {
        lemma_to_download_all(local, declared.drop_last());
    }
    assert(spec_to_download(local, declared) =~= declared);
}

/// When every declared digest is already present locally, nothing is
/// downloaded.
proof fn lemma_to_download_none(local: Seq<EntryModel>, declared: Seq<EntryModel>)
    requires
        forall|j: int|
            0 <= j < declared.len() ==> hash_present(local, (#[trigger] declared[j]).hash),
    ensures
        spec_to_download(local, declared) == Seq::<EntryModel>::empty(),
    decreases declared.len(),
{
    if declared.len() > 0 {
        lemma_to_download_none(local, declared.drop_last());
    }
    assert(spec_to_download(local, declared) =~= Seq::<EntryModel>::empty());
}

/// With disjoint digest sets, the diff deletes the local inventory in
/// full and downloads the declared inventory in full.
pub proof fn lemma_diff_disjoint_hashes(local: Seq<EntryModel>, declared: Seq<EntryModel>)
    requires
        forall|i: int, j: int|
            #![trigger local[i].hash, declared[j].hash]
            0 <= i < local.len() && 0 <= j < declared.len() ==> local[i].hash != declared[j].hash,
    ensures
        spec_to_delete(local, declared) == local,
        spec_to_download(local, declared) == declared,
{
    assert forall|i: int| 0 <= i < local.len() implies !keep_local(
        #[trigger] local[i],
        declared,
    ) by {
        assert(!hash_present(declared, local[i].hash));
    }
    assert forall|j: int| 0 <= j < declared.len() implies !hash_present(
        local,
        (#[trigger] declared[j]).hash,
    ) by {
        if hash_present(local, declared[j].hash) {
            let i = choose|i: int| 0 <= i < local.len() && local[i].hash == declared[j].hash;
            assert(local[i].hash == declared[j].hash);
        }
    }
    lemma_to_delete_all(local, declared);
    lemma_to_download_all(local, declared);
}

/// When the two inventories hold the same names and the same digests,
/// there is nothing to delete and nothing to download.
pub proof fn lemma_diff_identical(local: Seq<EntryModel>, declared: Seq<EntryModel>)
    requires
        forall|n: Seq<char>| name_declared(local, n) <==> name_declared(declared, n),
        forall|h: Option<Seq<char>>| hash_present(local, h) <==> hash_present(declared, h),
    ensures
        spec_to_delete(local, declared) == Seq::<EntryModel>::empty(),
        spec_to_download(local, declared) == Seq::<EntryModel>::empty(),
{
    assert forall|i: int| 0 <= i < local.len() implies keep_local(
        #[trigger] local[i],
        declared,
    ) by {
        assert(name_declared(local, local[i].name));
        assert(hash_present(local, local[i].hash));
    }
    assert forall|j: int| 0 <= j < declared.len() implies hash_present(
        local,
        (#[trigger] declared[j]).hash,
    ) by {
        assert(hash_present(declared, declared[j].hash));
    }
    lemma_to_delete_none(local, declared);
    lemma_to_download_none(local, declared);
}

/// The diff decision is a pure function of the two inventories and the
/// flag: any two results of it on the same inputs are identical, so
/// running the engine twice yields the same outcome.
pub proof fn lemma_diff_deterministic(
    local: Seq<EntryModel>,
    declared: Seq<EntryModel>,
    force_full_resync: bool,
    r1: (bool, Seq<EntryModel>, Seq<EntryModel>),
    r2: (bool, Seq<EntryModel>, Seq<EntryModel>),
)
    requires
        r1 == spec_diff(local, declared, force_full_resync),
        r2 == spec_diff(local, declared, force_full_resync),
    ensures
        r1 == r2,
{
}

} // verus!
