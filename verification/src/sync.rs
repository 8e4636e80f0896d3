use vstd::prelude::*;
use vstd::string::StringExecFns;

use crate::text::{
    first_index_where, has_suffix, lemma_first_index_where, spec_split, split_on, str_ends_with,
};

verus! {

/// The persisted pack record: where the pack lives, which version is
/// installed, and whether the next sync must redownload everything.
/// Read at the start of every sync; only the version is ever written
/// back, and only at the very end of a fully successful run, so that a
/// partially completed sync never records false success.
pub struct Config {
    /// The location of the installed pack.
    pub pack_location: String,
    /// The version of the installed pack.
    pub version: String,
    /// Whether every file should be installed regardless of local state.
    pub redownload_all: bool,
}

impl Config {
    /// The version bump committed at the very end of a fully successful
    /// sync: the version becomes the manifest's declared one and nothing
    /// else changes.
    pub fn commit_version(self, new_version: String) -> (r: Config)
        ensures
            r.pack_location@ == self.pack_location@,
            r.version@ == new_version@,
            r.redownload_all == self.redownload_all,
    {
        Config {
            pack_location: self.pack_location,
            version: new_version,
            redownload_all: self.redownload_all,
        }
    }
}

/// The release tag the installed version corresponds to: `v` then the
/// first two dot-separated tokens, dot between them.  Nothing when the
/// installed version has fewer than two tokens.
pub open spec fn expected_tag(installed: Seq<char>) -> Option<Seq<char>> {
    let toks = spec_split(installed, '.');
    if toks.len() >= 2 {
        Some(seq!['v'] + toks[0] + seq!['.'] + toks[1])
    } else {
        None
    }
}

/// Whether an update is needed: the remote release tag differs from the
/// tag the installed version corresponds to.  An installed version with
/// fewer than two dot-separated tokens is malformed and always needs an
/// update.
pub fn needs_update(installed: &str, tag: &str) -> (r: bool)
    ensures
        r == match expected_tag(installed@) {
            Some(t) => t != tag@,
            None => true,
        },
{
    let toks = split_on(installed, '.');
    if toks.len() < 2 {
        return true;
    }
    proof {
        reveal_strlit("v");
        reveal_strlit(".");
    }
    let expected: String = "v".to_owned().concat(toks[0].as_str()).concat(".").concat(
        toks[1].as_str(),
    );
    proof {
        assert(toks.deep_view()[0] == toks@[0].deep_view());
        assert(toks.deep_view()[1] == toks@[1].deep_view());
        assert(expected@ =~= seq!['v'] + toks.deep_view()[0] + seq!['.'] + toks.deep_view()[1]);
    }
    let owned_tag: String = tag.to_owned();
    !(expected == owned_tag)
}

/// Name `k` ends with the given suffix.
pub open spec fn suffix_pred(names: Seq<Seq<char>>, suffix: Seq<char>) -> spec_fn(int) -> bool {
    |k: int| has_suffix(names[k], suffix)
}

/// The first name ending with the given suffix.
pub open spec fn first_with_suffix(names: Seq<Seq<char>>, suffix: Seq<char>) -> Option<int> {
    first_index_where(suffix_pred(names, suffix), 0, names.len() as int)
}

/// Picks the first name that ends with the suffix — how the bundle asset
/// is chosen among a release's downloadable assets.
pub fn find_first_with_suffix(names: &Vec<String>, suffix: &str) -> (r: Option<usize>)
    ensures
        r matches Some(i) ==> (first_with_suffix(names.deep_view(), suffix@) == Some(i as int) && i
            < names.len()),
        r is None ==> first_with_suffix(names.deep_view(), suffix@) is None,
{
    let ghost gnames = names.deep_view();
    let mut i: usize = 0;
    while i < names.len()
        invariant
            0 <= i <= names.len(),
            gnames == names.deep_view(),
            forall|k: int| 0 <= k < i ==> !#[trigger] suffix_pred(gnames, suffix@)(k),
        decreases names.len() - i,
    {
        proof {
            assert(names.deep_view()[i as int] == names@[i as int].deep_view());
        }
        if str_ends_with(names[i].as_str(), suffix) {
            proof {
                lemma_first_index_where(suffix_pred(gnames, suffix@), 0, gnames.len() as int);
                assert(suffix_pred(gnames, suffix@)(i as int));
                assert(first_with_suffix(gnames, suffix@) == Some(i as int));
            }
            return Some(i);
        }
        proof {
            assert(!suffix_pred(gnames, suffix@)(i as int));
        }
        i = i + 1;
    }
    proof {
        lemma_first_index_where(suffix_pred(gnames, suffix@), 0, gnames.len() as int);
    }
    None
}

/// The phases of one sync run, in the order the controller sequences
/// them.
#[derive(Clone, Copy, Debug, PartialEq, Eq, Structural)]
pub enum SyncPhase {
    /// The run has begun.
    Started,
    /// The outer bundle is in hand, from cache or fresh.
    BundleFetched,
    /// The local inventory is built.
    InventoryBuilt,
    /// The inner payload is located and read.
    ArchiveResolved,
    /// The delete and download sets are decided.
    DiffComputed,
    /// The override content is extracted.
    ExtractionDone,
    /// Every download was attempted.
    DownloadsDone,
    /// The persisted version is bumped.
    Committed,
}

/// Where a phase stands in the run's order.
pub open spec fn spec_phase_rank(p: SyncPhase) -> int {
    match p {
        SyncPhase::Started => 0,
        SyncPhase::BundleFetched => 1,
        SyncPhase::InventoryBuilt => 2,
        SyncPhase::ArchiveResolved => 3,
        SyncPhase::DiffComputed => 4,
        SyncPhase::ExtractionDone => 5,
        SyncPhase::DownloadsDone => 6,
        SyncPhase::Committed => 7,
    }
}

/// The fraction reported after a phase, in thousandths.
pub open spec fn spec_progress_permille(p: SyncPhase) -> int {
    match p {
        SyncPhase::Started => 0,
        SyncPhase::BundleFetched => 200,
        SyncPhase::InventoryBuilt => 400,
        SyncPhase::ArchiveResolved => 500,
        SyncPhase::DiffComputed => 600,
        SyncPhase::ExtractionDone => 700,
        SyncPhase::DownloadsDone => 900,
        SyncPhase::Committed => 1000,
    }
}

/// Where a phase stands in the run's order.
pub fn phase_rank(p: SyncPhase) -> (r: u32)
    ensures
        r == spec_phase_rank(p),
{
    match p {
        SyncPhase::Started => 0,
        SyncPhase::BundleFetched => 1,
        SyncPhase::InventoryBuilt => 2,
        SyncPhase::ArchiveResolved => 3,
        SyncPhase::DiffComputed => 4,
        SyncPhase::ExtractionDone => 5,
        SyncPhase::DownloadsDone => 6,
        SyncPhase::Committed => 7,
    }
}

/// The fraction reported after a phase, in thousandths of the whole run.
/// The presentation layer divides by a thousand for display.
pub fn progress_permille(p: SyncPhase) -> (r: u32)
    ensures
        r == spec_progress_permille(p),
        r <= 1000,
{
    match p {
        SyncPhase::Started => 0,
        SyncPhase::BundleFetched => 200,
        SyncPhase::InventoryBuilt => 400,
        SyncPhase::ArchiveResolved => 500,
        SyncPhase::DiffComputed => 600,
        SyncPhase::ExtractionDone => 700,
        SyncPhase::DownloadsDone => 900,
        SyncPhase::Committed => 1000,
    }
}

/// Within one run the reported fraction never falls back: a later phase
/// reports at least what any earlier phase reported.
pub proof fn lemma_progress_monotone(p: SyncPhase, q: SyncPhase)
    requires
        spec_phase_rank(p) <= spec_phase_rank(q),
    ensures
        spec_progress_permille(p) <= spec_progress_permille(q),
{
}

/// The terminal status handed to the presentation layer.
#[derive(Clone, Copy, Debug, PartialEq, Eq, Structural)]
pub enum UpdateStatus {
    /// The installed version already matches the release.
    NotNeeded,
    /// A sync run is under way.
    InProgress,
    /// The run finished and the version was committed.
    Done,
}

impl UpdateStatus {
    /// The label the presentation layer shows for this status.
    pub fn label(&self) -> (r: &'static str)
        ensures
            self is NotNeeded ==> r@ == "false"@,
            self is InProgress ==> r@ == "true"@,
            self is Done ==> r@ == "done"@,
    {
        match self {
            UpdateStatus::NotNeeded => "false",
            UpdateStatus::InProgress => "true",
            UpdateStatus::Done => "done",
        }
    }
}

} // verus!
