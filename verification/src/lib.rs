//! Core engine for Cleanup Chore Assist.
//!
//! Pipeline: a walk over the file system feeds `scan::ScanTally`, which
//! aggregates sizes; `classify` assigns each large directory a safety tier;
//! `relocate` drives moving a folder to another drive behind a junction;
//! `staleness` will date-stamp when the owning application was last used.

pub mod classify;
pub mod order;
pub mod ownership;
pub mod paths;
pub mod relocate;
pub mod rules;
pub mod scan;
pub mod staleness;
pub mod text;
pub mod types;

pub use classify::{Classification, Classifier, Tier};
pub use relocate::{RelocateError, RelocateProgress, RelocateReport};
pub use scan::ScanError;
pub use types::{DirStat, FileStat, ScanProgress, ScanResult};
