//! Plain result types of a scan.

use vstd::prelude::*;
use crate::classify::Tier;

verus! {

/// Everything a scan reports.
#[derive(Debug)]
pub struct ScanResult {
    pub root: String,
    pub total_bytes: u64,
    pub file_count: u64,
    pub dir_count: u64,
    /// Entries that could not be read (permissions, in-use files).
    pub skipped: u64,
    pub duration_ms: u64,
    pub top_dirs: Vec<DirStat>,
    pub largest_files: Vec<FileStat>,
}

/// One reported directory with its verdict.
#[derive(Debug)]
pub struct DirStat {
    pub path: String,
    pub bytes: u64,
    pub tier: Tier,
    /// Which known-reclaimable rule matched, if any (id from the rules database).
    pub rule_id: Option<String>,
    /// Owning app's display name, when identified.
    pub owner: Option<String>,
    /// One-line human explanation of the classification.
    pub note: Option<String>,
}

/// One reported file.
#[derive(Debug)]
pub struct FileStat {
    pub path: String,
    pub bytes: u64,
}

/// Progress event while a scan runs. Totals aren't known until the walk
/// finishes, so these are running counters, not a percentage.
#[derive(Debug)]
pub struct ScanProgress {
    /// "walking" (discovering files) or "aggregating" (rolling up sizes).
    pub phase: String,
    pub files: u64,
    pub dirs: u64,
    pub bytes: u64,
    pub current_path: String,
}

} // verus!
