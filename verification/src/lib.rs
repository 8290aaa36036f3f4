//! A verified core for a macOS storage-cleanup utility.
//!
//! The library models the scan/clean data (entries, results, categories),
//! the duplicate-file detection pipeline, the scan and delete orchestration
//! protocol, and the secure-shred schedule. Filesystem access is performed
//! by the surrounding application, which feeds plain values into the
//! verified logic here.

pub mod analyzer;
pub mod categories;
pub mod cleaner;
pub mod cli;
pub mod disk_info;
pub mod hashing;
pub mod strings;
pub mod duplicates;
pub mod format;
pub mod session;
pub mod shredder;
