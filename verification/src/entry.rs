use vstd::prelude::*;
use vstd::string::StrSliceExecFns;

verus! {

/// Mathematical model of a content entry: the file's base name, the
/// URL it can be fetched from (absent for a locally discovered file),
/// and its content digest (absent when unknown).
#[verifier::ext_equal]
pub struct EntryModel {
    pub name: Seq<char>,
    pub url: Option<Seq<char>>,
    pub hash: Option<Seq<char>>,
}

/// A content entry: either a locally discovered file (no URL) or a
/// remotely declared one (digest present only when the manifest gave
/// one).  Identity for matching purposes is the base name alone — a
/// flat namespace per pack — so a name never holds a path separator.
#[derive(Clone, Debug, PartialEq, Eq)]
pub struct FileInfo {
    /// The base name of the file.
    pub name: String,
    /// The download URL of the file.
    pub url: Option<String>,
    /// The hex digest of the file's contents.
    pub hash: Option<String>,
}

impl DeepView for FileInfo {
    type V = EntryModel;

    open spec fn deep_view(&self) -> EntryModel {
        EntryModel { name: self.name@, url: self.url.deep_view(), hash: self.hash.deep_view() }
    }
}

/// A name may stand in an inventory only if it is a bare file name: no
/// `/` separator, the flat namespace's one path separator.
pub open spec fn valid_entry_name(name: Seq<char>) -> bool {
    forall|i: int| 0 <= i < name.len() ==> name[i] != '/'
}

/// Whether `name` is free of the path separator, so that it can stand
/// in an inventory.
pub fn is_valid_entry_name(name: &str) -> (r: bool)
    ensures
        r == valid_entry_name(name@),
{
    let len = name.unicode_len();
    let mut i: usize = 0;
    while i < len
        invariant
            0 <= i <= len,
            len == name@.len(),
            forall|j: int| 0 <= j < i ==> name@[j] != '/',
        decreases len - i,
    {
        if name.get_char(i) == '/' {
            return false;
        }
        i = i + 1;
    }
    true
}

impl FileInfo {
    /// Builds an entry from its parts.  The name must already be a
    /// bare file name; callers that hold a path strip its directory
    /// components first.
    pub fn new(name: String, url: Option<String>, hash: Option<String>) -> (r: Self)
        requires
            valid_entry_name(name@),
        ensures
            r.deep_view() == (EntryModel { name: name@, url: url.deep_view(), hash: hash.deep_view() }),
    {
        FileInfo { name, url, hash }
    }
}

/// The inventory that a list of scanned `(name, digest)` pairs yields:
/// one local entry per pair whose name is a bare file name; the rest
/// are left out, as a scan never aborts for one odd file.
pub open spec fn spec_local_inventory(items: Seq<(Seq<char>, Seq<char>)>) -> Seq<EntryModel>
    decreases items.len(),
{
    if items.len() == 0 {
        Seq::empty()
    } else {
        let rest = spec_local_inventory(items.drop_last());
        let last = items.last();
        if valid_entry_name(last.0) {
            rest.push(EntryModel { name: last.0, url: None, hash: Some(last.1) })
        } else {
            rest
        }
    }
}

/// Turns the `(name, digest)` pairs a directory scan produced into the
/// local inventory.  Pairs whose name holds a path separator are
/// skipped rather than failing the scan.
pub fn local_inventory(items: Vec<(String, String)>) -> (r: Vec<FileInfo>)
    ensures
        r.deep_view() == spec_local_inventory(items.deep_view()),
{
    let mut out: Vec<FileInfo> = Vec::new();
    let mut i: usize = 0;
    while i < items.len()
        invariant
            0 <= i <= items.len(),
            out.deep_view() == spec_local_inventory(items.deep_view().subrange(0, i as int)),
        decreases items.len() - i,
    {
        let (name, hash) = (items[i].0.clone(), items[i].1.clone());
        if is_valid_entry_name(name.as_str()) {
            out.push(FileInfo { name, url: None, hash: Some(hash) });
        }
        proof {
            assert(items.deep_view().subrange(0, i + 1 as int).drop_last() =~= items.deep_view()
                .subrange(0, i as int));
            assert(items.deep_view().subrange(0, i + 1 as int).last() == items.deep_view()[i as int]);
        }
        i = i + 1;
    }
    proof {
        assert(items.deep_view().subrange(0, items.deep_view().len() as int) =~= items.deep_view());
    }
    out
}

} // verus!
