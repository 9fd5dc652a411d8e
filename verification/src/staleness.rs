//! App usage staleness signals (planned; no signal is read yet).
//!
//! Windows records app usage in several places; combining them gives a
//! reliable "when did this app last actually run" answer without relying on
//! file access timestamps (which NTFS throttles or disables): Prefetch,
//! UserAssist, BAM and the uninstall keys.

use vstd::prelude::*;
use std::time::SystemTime;

verus! {

#[verifier::external_type_specification]
#[verifier::external_body]
pub struct ExSystemTime(SystemTime);

/// When an application executable was last observed running, and by which
/// signal, so the UI can show provenance.
pub struct LastUsed {
    pub when: SystemTime,
    pub signal: Signal,
}

/// Where a last-used time came from.
#[derive(Clone, Copy, PartialEq, Eq, Debug, Structural)]
pub enum Signal {
    Prefetch,
    UserAssist,
    Bam,
}

/// Best-effort "when did this exe last run", newest signal wins. No signal
/// reader exists yet, so nothing is ever known.
pub fn app_last_used(exe_path: &str) -> (r: Option<LastUsed>)
    ensures
        r is None,
{
    None
}

} // verus!
