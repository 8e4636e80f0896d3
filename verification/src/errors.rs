use vstd::prelude::*;

verus! {

/// The failures a sync run can meet.
///
/// Per-file troubles during hashing, extraction or downloading are not
/// escalated through this type: the affected file is skipped and picked
/// up again on the next run.  A `SyncError` is returned only where the
/// whole step cannot proceed.
#[derive(Clone, Copy, Debug, PartialEq, Eq, Structural)]
pub enum SyncError {
    /// A file could not be read, written or hashed.
    IoError,
    /// A fetch over the network failed.
    NetworkError,
    /// The outer bundle holds no inner payload archive.
    MissingPayload,
    /// The manifest document could not be parsed at all.
    MalformedManifest,
}

impl SyncError {
    /// A short, stable description, for logs kept by the driver.
    pub fn describe(&self) -> (r: &'static str)
        ensures
            self is IoError ==> r@ == "file could not be read or written"@,
            self is NetworkError ==> r@ == "network fetch failed"@,
            self is MissingPayload ==> r@ == "no payload archive inside the bundle"@,
            self is MalformedManifest ==> r@ == "manifest document could not be parsed"@,
    {
        match self {
            SyncError::IoError => "file could not be read or written",
            SyncError::NetworkError => "network fetch failed",
            SyncError::MissingPayload => "no payload archive inside the bundle",
            SyncError::MalformedManifest => "manifest document could not be parsed",
        }
    }
}

} // verus!
