//! Synchronization engine for a locally installed content pack.
//!
//! The library keeps a directory of mod files in step with a remote,
//! manifest-described bundle.  It covers the parts with algorithmic
//! weight: content hashing, manifest parsing, the three-way diff
//! decision (keep / delete / download), resolution of the nested
//! payload archive, and the version bump committed at the end of a
//! successful run.  File, network and window I/O live in the
//! surrounding driver, which hands this library plain values.

pub mod archive;
pub mod diff;
pub mod entry;
pub mod errors;
pub mod hashing;
pub mod manifest;
pub mod sync;
pub mod text;
