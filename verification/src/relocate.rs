//! Moving a directory to another drive and leaving an NTFS junction at the
//! old path, so apps that reference the old location keep working.
//!
//! The order of steps is chosen so the user's data is never the only copy
//! mid-failure, and so the step that fails when files are in use (the
//! rename) happens first, before gigabytes get copied:
//! 1. rename the original to `<name>.cca-backup` (same volume, atomic;
//!    fails fast with `FolderInUse` if anything inside is open)
//! 2. copy the backup to the destination
//! 3. create the junction at the original path -> destination
//! 4. verify the junction resolves
//! 5. only then delete the backup
//! Any failure before step 5 rolls back to the original layout.
//!
//! The file system work is done by the caller: `Relocation` decides, step
//! by step, what to do next from what the last step reported.

use vstd::prelude::*;
use crate::classify::{Classifier, Tier, spec_classify};
use crate::paths::{component_prefix, normalize, spec_normalize};
use crate::text::chars_of;

verus! {

#[verifier::external_type_specification]
#[verifier::external_body]
pub struct ExIoError(std::io::Error);

/// What a finished move reports.
#[derive(Debug)]
pub struct RelocateReport {
    pub src: String,
    pub dest: String,
    pub bytes_moved: u64,
    pub files_moved: u64,
    /// Reparse points (junctions/symlinks) inside the source are not copied.
    pub links_skipped: u64,
    /// Set when the backup could not be fully deleted (locked files); the
    /// move succeeded but this path must be removed manually to free space.
    pub backup_left_at: Option<String>,
}

/// Progress event streamed while a move runs.
#[derive(Debug)]
pub struct RelocateProgress {
    /// "preparing" (sizing the tree), "copying", or "finalizing"
    /// (junction + cleanup).
    pub phase: String,
    pub bytes_done: u64,
    pub bytes_total: u64,
    pub current_file: String,
}

/// Why a move was refused or failed.
#[derive(Debug)]
pub enum RelocateError {
    /// The source does not exist or is not a directory.
    SourceNotFound(String),
    /// The source is an OS-managed folder.
    SourceIsOsCritical(String),
    /// The source is a drive root.
    SourceIsRoot,
    /// The source is already a junction or symlink.
    SourceIsLink(String),
    /// The destination folder does not exist.
    DestNotFound(String),
    /// The destination lies inside the source.
    DestInsideSource,
    /// Something already exists at the destination.
    DestOccupied(String),
    /// Not enough free space at the destination.
    InsufficientSpace { needed: u64, available: u64 },
    /// Copying failed at `path`.
    CopyFailed { path: String, source: std::io::Error },
    /// The folder holds this app's own executable, working directory or data folder.
    SourceContainsSelf(&'static str),
    /// Files in the folder are in use.
    FolderInUse(std::io::Error),
    /// The original folder could not be set aside.
    BackupRenameFailed(std::io::Error),
    /// A previous move left a backup behind.
    BackupLeftover(String),
    /// The junction could not be created (the original was restored).
    JunctionFailed(std::io::Error),
    /// Another I/O error.
    Io(std::io::Error),
}

/// Name of the folder the original is set aside under, next to it:
/// appended rather than substituted for an extension, so `my.folder`
/// becomes `my.folder.cca-backup`.
pub fn backup_name(dir_name: &str) -> (out: String)
    ensures
        out@ == dir_name@ + ".cca-backup"@,
{
    let mut out = String::from_str(dir_name);
    out.append(".cca-backup");
    out
}

/// Whether the destination volume is too small: the tree plus 5% headroom
/// for allocation overhead does not fit.
pub open spec fn lacks_space(needed: u64, available: u64) -> bool {
    needed + needed / 20 > available
}

/// Space check, free of overflow.
pub fn insufficient_space(needed: u64, available: u64) -> (r: bool)
    ensures
        r == lacks_space(needed, available),
{
    needed > available || needed / 20 > available - needed
}

/// Which of this process's own locations (its executable, its working
/// directory, its data folder; in that order) lies inside the source, all
/// compared in normalized form.
pub open spec fn spec_contains_self(
    source: Seq<char>,
    executable: Option<Seq<char>>,
    working_dir: Option<Seq<char>>,
    data_folder: Option<Seq<char>>,
) -> Option<Seq<char>> {
    let s = spec_normalize(source);
    if executable is Some && component_prefix(spec_normalize(executable->0), s) {
        Some("executable"@)
    } else if working_dir is Some && component_prefix(spec_normalize(working_dir->0), s) {
        Some("working directory"@)
    } else if data_folder is Some && component_prefix(spec_normalize(data_folder->0), s) {
        Some("data folder"@)
    } else {
        None
    }
}

/// Whether `path`, normalized, lies at or below `source_norm`.
fn inside(path: &Option<String>, source_norm: &Vec<char>) -> (r: bool)
    ensures
        r == (path is Some && component_prefix(spec_normalize(path->0@), source_norm@)),
{
    match path {
        Some(p) => {
            let n = normalize(p.as_str());
            let pc = chars_of(n.as_str());
            crate::paths::component_prefix_chars(&pc, source_norm)
        },
        None => false,
    }
}

/// The process holds handles that make moving these folders impossible:
/// the running executable's folder, the working directory and the data
/// folder. Detects them up front so the error says "that's me" instead of
/// "close the program". Paths are given in canonical form where they
/// could be canonicalized.
pub fn contains_self(
    source: &str,
    executable: &Option<String>,
    working_dir: &Option<String>,
    data_folder: &Option<String>,
) -> (r: Option<&'static str>)
    ensures
        match r {
            Some(w) => spec_contains_self(
                source@,
                opt_chars(*executable),
                opt_chars(*working_dir),
                opt_chars(*data_folder),
            ) == Some(w@),
            None => spec_contains_self(
                source@,
                opt_chars(*executable),
                opt_chars(*working_dir),
                opt_chars(*data_folder),
            ) is None,
        },
{
    let s = normalize(source);
    let sc = chars_of(s.as_str());
    if inside(executable, &sc) {
        return Some("executable");
    }
    if inside(working_dir, &sc) {
        return Some("working directory");
    }
    if inside(data_folder, &sc) {
        return Some("data folder");
    }
    None
}

/// The characters of an optional string.
pub open spec fn opt_chars(s: Option<String>) -> Option<Seq<char>> {
    match s {
        Some(t) => Some(t@),
        None => None,
    }
}

/// Nanoseconds between copying-progress events.
pub open spec fn copy_progress_interval() -> u64 {
    100_000_000
}

/// Progress bookkeeping during a move.
pub struct ProgressSink {
    pub bytes_total: u64,
    /// Bytes of fully copied files; the in-flight file's progress rides on top.
    pub bytes_done: u64,
    pub current_file: String,
    /// When the last event was emitted (nanoseconds).
    pub last_emit: u64,
}

impl ProgressSink {
    /// An event for `phase` now; `now` becomes the last emission time.
    pub fn emit_now(&mut self, phase: &str, in_file_bytes: u64, now: u64) -> (p: RelocateProgress)
        requires
            old(self).bytes_done + in_file_bytes <= u64::MAX,
        ensures
            p.phase@ == phase@,
            p.bytes_done == old(self).bytes_done + in_file_bytes,
            p.bytes_total == old(self).bytes_total,
            p.current_file@ == old(self).current_file@,
            final(self).bytes_total == old(self).bytes_total,
            final(self).bytes_done == old(self).bytes_done,
            final(self).current_file@ == old(self).current_file@,
            final(self).last_emit == now,
    {
        let p = RelocateProgress {
            phase: String::from_str(phase),
            bytes_done: self.bytes_done + in_file_bytes,
            bytes_total: self.bytes_total,
            current_file: self.current_file.clone(),
        };
        self.last_emit = now;
        p
    }

    /// A "copying" event, if at least 100 ms have passed since the last one.
    pub fn emit_throttled(&mut self, in_file_bytes: u64, now: u64) -> (p: Option<RelocateProgress>)
        requires
            progress_due(old(self).last_emit, now) ==> old(self).bytes_done + in_file_bytes
                <= u64::MAX,
        ensures
            throttled_emit(*old(self), *final(self), in_file_bytes, now, p),
    {
        if self.event_due(now) {
            Some(self.emit_now("copying", in_file_bytes, now))
        } else {
            None
        }
    }

    /// Whether a "copying" event would be emitted at `now`.
    pub fn event_due(&self, now: u64) -> (r: bool)
        ensures
            r == progress_due(self.last_emit, now),
    {
        now >= self.last_emit && now - self.last_emit >= 100_000_000
    }
}

/// What `emit_throttled` does: the counters and current file stay; when
/// an event is due at `now` it is a "copying" event with the in-flight
/// bytes on top, and `now` becomes the last emission time; otherwise
/// nothing is emitted and the sink is unchanged.
pub open spec fn throttled_emit(
    before: ProgressSink,
    after: ProgressSink,
    in_file_bytes: u64,
    now: u64,
    p: Option<RelocateProgress>,
) -> bool {
    &&& after.bytes_total == before.bytes_total
    &&& after.bytes_done == before.bytes_done
    &&& after.current_file@ == before.current_file@
    &&& progress_due(before.last_emit, now) ==> {
        &&& p matches Some(e)
        &&& e.phase@ == "copying"@
        &&& e.bytes_done == before.bytes_done + in_file_bytes
        &&& e.bytes_total == before.bytes_total
        &&& e.current_file@ == before.current_file@
        &&& after.last_emit == now
    }
    &&& !progress_due(before.last_emit, now) ==> p is None && after.last_emit == before.last_emit
}

/// Throttled events are at least 100 ms apart: after an event at `t1`,
/// a later call emits an event only at `t2 >= t1 + 100 ms`, and calls in
/// between that emit nothing leave the last emission time alone.
pub proof fn law_throttled_events_spaced(
    s0: ProgressSink,
    s1: ProgressSink,
    s2: ProgressSink,
    b1: u64,
    b2: u64,
    t1: u64,
    t2: u64,
    p1: Option<RelocateProgress>,
    p2: Option<RelocateProgress>,
)
    requires
        throttled_emit(s0, s1, b1, t1, p1),
        p1 is Some,
        throttled_emit(s1, s2, b2, t2, p2),
        p2 is Some,
    ensures
        t2 >= t1 + copy_progress_interval(),
        s2.last_emit == t2,
{
}

/// A call that emits nothing leaves the sink as it was, so the spacing
/// holds across any number of such calls.
pub proof fn law_quiet_call_changes_nothing(
    s0: ProgressSink,
    s1: ProgressSink,
    b: u64,
    t: u64,
    p: Option<RelocateProgress>,
)
    requires
        throttled_emit(s0, s1, b, t, p),
        p is None,
    ensures
        s1.last_emit == s0.last_emit,
        s1.bytes_done == s0.bytes_done,
        s1.bytes_total == s0.bytes_total,
        s1.current_file@ == s0.current_file@,
        !progress_due(s0.last_emit, t),
{
}

/// The paths of a move, worked out by the caller.
pub struct RelocatePaths {
    /// The source folder, as displayed.
    pub src: String,
    /// The folder to move it into.
    pub dest_parent: String,
    /// The source's own name; `None` for a drive root.
    pub dir_name: Option<String>,
    /// `dest_parent` joined with the source's name.
    pub dest: String,
    /// The source's sibling named by `backup_name`.
    pub backup: String,
}

/// What `Path::starts_with` returns for two paths given as text: whether
/// `base` is a whole-component prefix of `path`, by the target platform's
/// path syntax (fixed when the crate is built).
pub uninterp spec fn path_starts_with(path: Seq<char>, base: Seq<char>) -> bool;

/// Calls `Path::new(path).starts_with(base)`. Claimed: the result depends
/// on the two texts alone, and is named `path_starts_with`.
#[verifier::external_body]
fn path_has_prefix(path: &str, base: &str) -> (r: bool)
    ensures
        r == path_starts_with(path@, base@),
{
    std::path::Path::new(path).starts_with(base)
}

/// After restoring the original, what is left to undo.
#[derive(Clone, Copy, PartialEq, Eq, Debug, Structural)]
pub enum Resume {
    /// The copy failed: report its error.
    AfterCopyFailure,
    /// The junction failed: also remove the copy, then report.
    AfterLinkFailure,
}

/// Where a move stands, i.e. which report it waits for.
#[derive(Clone, Copy, PartialEq, Eq, Debug, Structural)]
pub enum Phase {
    Start,
    InspectingSource,
    LocatingSelf,
    CheckingDestParent,
    CheckingDest,
    Preparing,
    Measuring,
    QueryingSpace,
    CheckingBackup,
    /// Renaming the original to the backup, attempt number.
    SettingAside(u64),
    /// Waiting before the next attempt.
    AwaitingRetry(u64),
    StartingCopy,
    Copying,
    DroppingCopy,
    /// Renaming the backup back to the original, attempt number.
    Restoring(u64, Resume),
    AwaitingRestore(u64, Resume),
    Finalizing,
    Linking,
    DroppingLink,
    DroppingCopyAfterLink,
    RemovingBackup,
    Finished,
}

/// What the caller must do next.
#[derive(Debug)]
pub enum RelocateAction {
    /// Read the source's own metadata (without following links).
    InspectSource { path: String },
    /// Canonicalize the source, the executable, the working directory and the data folder.
    LocateSelf { path: String },
    /// Check that the path is a directory.
    CheckIsDir { path: String },
    /// Check whether anything exists at the path.
    CheckExists { path: String },
    /// Hand this progress event to the listener.
    Emit(RelocateProgress),
    /// Sum the sizes of the files in the tree (links not followed).
    MeasureTree { path: String },
    /// Ask for the free space on the volume holding the path.
    QueryFreeSpace { path: String },
    /// Wait this long.
    Sleep { millis: u64 },
    /// Rename one path to the other.
    Rename { from: String, to: String },
    /// Copy the tree (reporting through `copied_file` and friends).
    CopyTree { from: String, to: String },
    /// Create a junction at `link` pointing to `target`, then read `link` back.
    CreateJunction { target: String, link: String },
    /// Remove the tree at the path.
    RemoveTree { path: String },
    /// The move is over.
    Finish(Result<RelocateReport, RelocateError>),
}

/// What the last action reported.
#[derive(Debug)]
pub enum RelocateEvent {
    /// The move is to begin.
    Started,
    /// The source's metadata: whether it could be read, and what it is.
    SourceInspected { readable: bool, is_symlink: bool, is_dir: bool },
    /// Canonical forms (the raw path where canonicalization failed) of the
    /// source and of this process's own locations, where known.
    SelfLocated {
        source: String,
        executable: Option<String>,
        working_dir: Option<String>,
        data_folder: Option<String>,
    },
    /// The answer to a check.
    Checked(bool),
    /// A size or free-space figure, or the error that prevented it.
    Measured(Result<u64, std::io::Error>),
    /// The result of a rename, with the OS error code of a failure.
    Renamed { result: Result<(), std::io::Error>, os_code: Option<i32> },
    /// The copy finished or failed.
    Copied(Result<(), RelocateError>),
    /// The junction was created and resolves, or the error.
    Linked(Result<(), std::io::Error>),
    /// Whether a tree was removed.
    Removed(bool),
    /// An emit or a sleep is done.
    Done,
}

/// Which events a phase waits for.
pub open spec fn accepts(phase: Phase, e: RelocateEvent) -> bool {
    match phase {
        Phase::Start => e is Started,
        Phase::InspectingSource => e is SourceInspected,
        Phase::LocatingSelf => e is SelfLocated,
        Phase::CheckingDestParent | Phase::CheckingDest | Phase::CheckingBackup => e is Checked,
        Phase::Measuring | Phase::QueryingSpace => e is Measured,
        Phase::SettingAside(_) | Phase::Restoring(_, _) => e is Renamed,
        Phase::Copying => e is Copied,
        Phase::Linking => e is Linked,
        Phase::DroppingCopy | Phase::DroppingLink | Phase::DroppingCopyAfterLink
        | Phase::RemovingBackup => e is Removed,
        Phase::Finished => false,
        _ => e is Done,
    }
}

/// A move of a folder to another drive, driven step by step.
pub struct Relocation {
    paths: RelocatePaths,
    dest_inside: bool,
    source_tier: Tier,
    phase: Phase,
    needed: u64,
    report: RelocateReport,
    sink: ProgressSink,
    pending: Option<RelocateError>,
}

/// Milliseconds to wait before rename attempt `attempt` (1, 2 or 3).
pub open spec fn retry_delay(attempt: u64) -> u64 {
    (150 * attempt) as u64
}

/// Whether an OS error code says files are in use (access denied or a
/// sharing violation).
pub open spec fn in_use_code(code: Option<i32>) -> bool {
    code == Some(5i32) || code == Some(32i32)
}

impl Relocation {
    pub closed spec fn src(&self) -> Seq<char> {
        self.paths.src@
    }

    pub closed spec fn dest_parent(&self) -> Seq<char> {
        self.paths.dest_parent@
    }

    pub closed spec fn has_dir_name(&self) -> bool {
        self.paths.dir_name is Some
    }

    pub closed spec fn dest(&self) -> Seq<char> {
        self.paths.dest@
    }

    pub closed spec fn backup(&self) -> Seq<char> {
        self.paths.backup@
    }

    pub closed spec fn dest_inside_source(&self) -> bool {
        self.dest_inside
    }

    /// The source's tier by the classifier given at the start.
    pub closed spec fn source_tier(&self) -> Tier {
        self.source_tier
    }

    pub closed spec fn phase(&self) -> Phase {
        self.phase
    }

    /// The measured size of the source tree.
    pub closed spec fn needed(&self) -> u64 {
        self.needed
    }

    /// The report so far: bytes moved, files moved, links skipped.
    pub closed spec fn counts(&self) -> (u64, u64, u64) {
        (self.report.bytes_moved, self.report.files_moved, self.report.links_skipped)
    }

    /// Progress state: bytes total, bytes done, current file, last emission.
    pub closed spec fn progress_state(&self) -> (u64, u64, Seq<char>, u64) {
        (self.sink.bytes_total, self.sink.bytes_done, self.sink.current_file@, self.sink.last_emit)
    }

    /// The error to report once the rollback is done.
    pub closed spec fn pending(&self) -> Option<RelocateError> {
        self.pending
    }

    /// Internal consistency: an error is held exactly while rolling back,
    /// and the report names the source and destination.
    pub closed spec fn wf(&self) -> bool {
        &&& self.report.src@ == self.paths.src@
        &&& self.report.dest@ == self.paths.dest@
        &&& self.report.backup_left_at is None
        &&& match self.phase {
            Phase::DroppingCopy | Phase::Restoring(_, _) | Phase::AwaitingRestore(_, _)
            | Phase::DroppingLink | Phase::DroppingCopyAfterLink => self.pending is Some,
            _ => true,
        }
        &&& match self.phase {
            Phase::SettingAside(k) | Phase::AwaitingRetry(k) => k <= 3,
            Phase::Restoring(k, _) | Phase::AwaitingRestore(k, _) => k <= 3,
            _ => true,
        }
    }
}

/// The two moves have the same paths and source tier.
pub open spec fn same_setup(s: Relocation, t: Relocation) -> bool {
    &&& t.src() == s.src()
    &&& t.dest_parent() == s.dest_parent()
    &&& t.has_dir_name() == s.has_dir_name()
    &&& t.dest() == s.dest()
    &&& t.backup() == s.backup()
    &&& t.dest_inside_source() == s.dest_inside_source()
    &&& t.source_tier() == s.source_tier()
}

/// Nothing but the phase (and the held error) changed.
pub open spec fn same_progress(s: Relocation, t: Relocation) -> bool {
    &&& t.needed() == s.needed()
    &&& t.counts() == s.counts()
    &&& t.progress_state() == s.progress_state()
}

/// Move to `phase`, keeping everything else.
pub open spec fn goes_to(s: Relocation, t: Relocation, phase: Phase) -> bool {
    &&& t.phase() == phase
    &&& same_progress(s, t)
    &&& t.pending() == s.pending()
}

/// The move ends, refused or failed, with this error.
pub open spec fn fails(t: Relocation, a: RelocateAction, err: spec_fn(RelocateError) -> bool) -> bool {
    &&& t.phase() == Phase::Finished
    &&& a matches RelocateAction::Finish(Err(e)) && err(e)
}

/// The step from `s` on event `e` at time `now`, to state `t` with action `a`.
pub open spec fn transition(
    s: Relocation,
    e: RelocateEvent,
    now: u64,
    t: Relocation,
    a: RelocateAction,
) -> bool {
    &&& same_setup(s, t)
    &&& match s.phase() {
        Phase::Start => goes_to(s, t, Phase::InspectingSource) && (a matches RelocateAction::InspectSource {
            path,
        } && path@ == s.src()),
        Phase::InspectingSource => match e {
            RelocateEvent::SourceInspected { readable, is_symlink, is_dir } => if !readable {
                fails(t, a, |x: RelocateError| x matches RelocateError::SourceNotFound(p) && p@ == s.src())
            } else if is_symlink {
                fails(t, a, |x: RelocateError| x matches RelocateError::SourceIsLink(p) && p@ == s.src())
            } else if !is_dir {
                fails(t, a, |x: RelocateError| x matches RelocateError::SourceNotFound(p) && p@ == s.src())
            } else if !s.has_dir_name() {
                fails(t, a, |x: RelocateError| x is SourceIsRoot)
            } else if s.source_tier() == Tier::OsCritical {
                fails(
                    t,
                    a,
                    |x: RelocateError| x matches RelocateError::SourceIsOsCritical(p) && p@ == s.src(),
                )
            } else {
                goes_to(s, t, Phase::LocatingSelf) && (a matches RelocateAction::LocateSelf { path }
                    && path@ == s.src())
            },
            _ => false,
        },
        Phase::LocatingSelf => match e {
            RelocateEvent::SelfLocated { source, executable, working_dir, data_folder } => match
            spec_contains_self(
                source@,
                opt_chars(executable),
                opt_chars(working_dir),
                opt_chars(data_folder),
            ) {
                Some(w) => fails(
                    t,
                    a,
                    |x: RelocateError| x matches RelocateError::SourceContainsSelf(q) && q@ == w,
                ),
                None => goes_to(s, t, Phase::CheckingDestParent) && (a matches RelocateAction::CheckIsDir {
                    path,
                } && path@ == s.dest_parent()),
            },
            _ => false,
        },
        Phase::CheckingDestParent => match e {
            RelocateEvent::Checked(is_dir) => if !is_dir {
                fails(
                    t,
                    a,
                    |x: RelocateError| x matches RelocateError::DestNotFound(p) && p@ == s.dest_parent(),
                )
            } else if s.dest_inside_source() {
                fails(t, a, |x: RelocateError| x is DestInsideSource)
            } else {
                goes_to(s, t, Phase::CheckingDest) && (a matches RelocateAction::CheckExists { path }
                    && path@ == s.dest())
            },
            _ => false,
        },
        Phase::CheckingDest => match e {
            RelocateEvent::Checked(exists) => if exists {
                fails(t, a, |x: RelocateError| x matches RelocateError::DestOccupied(p) && p@ == s.dest())
            } else {
                goes_to(s, t, Phase::Preparing) && (a matches RelocateAction::Emit(p) && p.phase@
                    == "preparing"@ && p.bytes_done == 0 && p.bytes_total == 0 && p.current_file@
                    == Seq::<char>::empty())
            },
            _ => false,
        },
        Phase::Preparing => goes_to(s, t, Phase::Measuring) && (a matches RelocateAction::MeasureTree {
            path,
        } && path@ == s.src()),
        Phase::Measuring => match e {
            RelocateEvent::Measured(Ok(n)) => {
                &&& t.phase() == Phase::QueryingSpace
                &&& t.needed() == n
                &&& t.counts() == s.counts()
                &&& t.progress_state() == s.progress_state()
                &&& t.pending() == s.pending()
                &&& a matches RelocateAction::QueryFreeSpace { path } && path@ == s.dest_parent()
            },
            RelocateEvent::Measured(Err(x)) => fails(
                t,
                a,
                |y: RelocateError| y matches RelocateError::Io(z) && z == x,
            ),
            _ => false,
        },
        Phase::QueryingSpace => match e {
            RelocateEvent::Measured(Ok(available)) => if lacks_space(s.needed(), available) {
                fails(
                    t,
                    a,
                    |y: RelocateError|
                        y matches RelocateError::InsufficientSpace { needed, available: av }
                            && needed == s.needed() && av == available,
                )
            } else {
                goes_to(s, t, Phase::CheckingBackup) && (a matches RelocateAction::CheckExists {
                    path,
                } && path@ == s.backup())
            },
            RelocateEvent::Measured(Err(x)) => fails(
                t,
                a,
                |y: RelocateError| y matches RelocateError::Io(z) && z == x,
            ),
            _ => false,
        },
        Phase::CheckingBackup => match e {
            RelocateEvent::Checked(exists) => if exists {
                fails(
                    t,
                    a,
                    |x: RelocateError| x matches RelocateError::BackupLeftover(p) && p@ == s.backup(),
                )
            } else {
                goes_to(s, t, Phase::SettingAside(0)) && (a matches RelocateAction::Rename { from, to }
                    && from@ == s.src() && to@ == s.backup())
            },
            _ => false,
        },
        Phase::SettingAside(k) => match e {
            RelocateEvent::Renamed { result: Ok(_), os_code } => {
                &&& t.phase() == Phase::StartingCopy
                &&& t.needed() == s.needed()
                &&& t.counts() == (0u64, 0u64, 0u64)
                &&& t.progress_state() == (s.needed(), 0u64, Seq::<char>::empty(), now)
                &&& t.pending() == s.pending()
                &&& a matches RelocateAction::Emit(p) && p.phase@ == "copying"@ && p.bytes_done == 0
                    && p.bytes_total == s.needed() && p.current_file@ == Seq::<char>::empty()
            },
            RelocateEvent::Renamed { result: Err(x), os_code } => if k < 3 {
                goes_to(s, t, Phase::AwaitingRetry((k + 1) as u64)) && (a matches RelocateAction::Sleep {
                    millis,
                } && millis == retry_delay((k + 1) as u64))
            } else if in_use_code(os_code) {
                fails(t, a, |y: RelocateError| y matches RelocateError::FolderInUse(z) && z == x)
            } else {
                fails(t, a, |y: RelocateError| y matches RelocateError::BackupRenameFailed(z) && z == x)
            },
            _ => false,
        },
        Phase::AwaitingRetry(k) => goes_to(s, t, Phase::SettingAside(k)) && (a matches RelocateAction::Rename {
            from,
            to,
        } && from@ == s.src() && to@ == s.backup()),
        Phase::StartingCopy => goes_to(s, t, Phase::Copying) && (a matches RelocateAction::CopyTree {
            from,
            to,
        } && from@ == s.backup() && to@ == s.dest()),
        Phase::Copying => match e {
            RelocateEvent::Copied(Ok(_)) => {
                &&& t.phase() == Phase::Finalizing
                &&& t.needed() == s.needed()
                &&& t.counts() == s.counts()
                &&& t.progress_state() == (
                    s.progress_state().0,
                    s.progress_state().1,
                    s.progress_state().2,
                    now,
                )
                &&& t.pending() == s.pending()
                &&& a matches RelocateAction::Emit(p) && p.phase@ == "finalizing"@ && p.bytes_done
                    == s.progress_state().1 && p.bytes_total == s.progress_state().0
                    && p.current_file@ == s.progress_state().2
            },
            RelocateEvent::Copied(Err(x)) => {
                &&& t.phase() == Phase::DroppingCopy
                &&& same_progress(s, t)
                &&& t.pending() == Some(x)
                &&& a matches RelocateAction::RemoveTree { path } && path@ == s.dest()
            },
            _ => false,
        },
        Phase::DroppingCopy => {
            &&& t.phase() == Phase::Restoring(0, Resume::AfterCopyFailure)
            &&& same_progress(s, t)
            &&& t.pending() == s.pending()
            &&& a matches RelocateAction::Rename { from, to } && from@ == s.backup() && to@ == s.src()
        },
        Phase::Restoring(k, r) => match e {
            RelocateEvent::Renamed { result, os_code } => if result is Err && k < 3 {
                goes_to(s, t, Phase::AwaitingRestore((k + 1) as u64, r)) && (a matches RelocateAction::Sleep {
                    millis,
                } && millis == retry_delay((k + 1) as u64))
            } else {
                match r {
                    Resume::AfterCopyFailure => fails(t, a, |y: RelocateError| s.pending() == Some(y)),
                    Resume::AfterLinkFailure => goes_to(s, t, Phase::DroppingCopyAfterLink) && (a matches RelocateAction::RemoveTree {
                        path,
                    } && path@ == s.dest()),
                }
            },
            _ => false,
        },
        Phase::AwaitingRestore(k, r) => goes_to(s, t, Phase::Restoring(k, r)) && (a matches RelocateAction::Rename {
            from,
            to,
        } && from@ == s.backup() && to@ == s.src()),
        Phase::Finalizing => goes_to(s, t, Phase::Linking) && (a matches RelocateAction::CreateJunction {
            target,
            link,
        } && target@ == s.dest() && link@ == s.src()),
        Phase::Linking => match e {
            RelocateEvent::Linked(Ok(_)) => goes_to(s, t, Phase::RemovingBackup) && (a matches RelocateAction::RemoveTree {
                path,
            } && path@ == s.backup()),
            RelocateEvent::Linked(Err(x)) => {
                &&& t.phase() == Phase::DroppingLink
                &&& same_progress(s, t)
                &&& t.pending() == Some(RelocateError::JunctionFailed(x))
                &&& a matches RelocateAction::RemoveTree { path } && path@ == s.src()
            },
            _ => false,
        },
        Phase::DroppingLink => {
            &&& t.phase() == Phase::Restoring(0, Resume::AfterLinkFailure)
            &&& same_progress(s, t)
            &&& t.pending() == s.pending()
            &&& a matches RelocateAction::Rename { from, to } && from@ == s.backup() && to@ == s.src()
        },
        Phase::DroppingCopyAfterLink => fails(t, a, |y: RelocateError| s.pending() == Some(y)),
        Phase::RemovingBackup => match e {
            RelocateEvent::Removed(removed) => {
                &&& t.phase() == Phase::Finished
                &&& a matches RelocateAction::Finish(Ok(rep)) && rep.src@ == s.src() && rep.dest@
                    == s.dest() && (rep.bytes_moved, rep.files_moved, rep.links_skipped) == s.counts()
                    && (if removed {
                    rep.backup_left_at is None
                } else {
                    rep.backup_left_at matches Some(b) && b@ == s.backup()
                })
            },
            _ => false,
        },
        Phase::Finished => false,
    }
}

impl Relocation {
    /// A move of `paths.src` into `paths.dest_parent`, waiting for `Started`.
    /// The classifier decides whether the source is OS-managed, and the
    /// move is refused later when `dest_parent` lies at or below `src`
    /// (as `Path::starts_with` says).
    pub fn new(paths: RelocatePaths, classifier: &Classifier) -> (r: Self)
        ensures
            r.wf(),
            r.phase() == Phase::Start,
            r.src() == paths.src@,
            r.dest_parent() == paths.dest_parent@,
            r.has_dir_name() == (paths.dir_name is Some),
            r.dest() == paths.dest@,
            r.backup() == paths.backup@,
            r.dest_inside_source() == path_starts_with(paths.dest_parent@, paths.src@),
            r.source_tier() == spec_classify(
                classifier.rule_list(),
                classifier.fallback_list(),
                classifier.os_prefix_list(),
                classifier.app_list(),
                paths.src@,
            ).0,
            r.needed() == 0,
            r.counts() == (0u64, 0u64, 0u64),
            r.pending() is None,
    {
        let inside = path_has_prefix(paths.dest_parent.as_str(), paths.src.as_str());
        Self::with_containment(paths, classifier, inside)
    }

    /// A move as `new` makes it, given whether `dest_parent` lies at or
    /// below `src`.
    pub fn with_containment(paths: RelocatePaths, classifier: &Classifier, dest_inside_source: bool) -> (r: Self)
        ensures
            r.wf(),
            r.phase() == Phase::Start,
            r.src() == paths.src@,
            r.dest_parent() == paths.dest_parent@,
            r.has_dir_name() == (paths.dir_name is Some),
            r.dest() == paths.dest@,
            r.backup() == paths.backup@,
            r.dest_inside_source() == dest_inside_source,
            r.source_tier() == spec_classify(
                classifier.rule_list(),
                classifier.fallback_list(),
                classifier.os_prefix_list(),
                classifier.app_list(),
                paths.src@,
            ).0,
            r.needed() == 0,
            r.counts() == (0u64, 0u64, 0u64),
            r.pending() is None,
    {
        let source_tier = classifier.classify(paths.src.as_str()).tier;
        let report = RelocateReport {
            src: paths.src.clone(),
            dest: paths.dest.clone(),
            bytes_moved: 0,
            files_moved: 0,
            links_skipped: 0,
            backup_left_at: None,
        };
        let sink = ProgressSink {
            bytes_total: 0,
            bytes_done: 0,
            current_file: String::new(),
            last_emit: 0,
        };
        Relocation {
            paths,
            dest_inside: dest_inside_source,
            source_tier,
            phase: Phase::Start,
            needed: 0,
            report,
            sink,
            pending: None,
        }
    }

    /// The report so far, with no backup left behind.
    fn current_report(&self) -> (rep: RelocateReport)
        ensures
            rep.src@ == self.report.src@,
            rep.dest@ == self.report.dest@,
            rep.bytes_moved == self.report.bytes_moved,
            rep.files_moved == self.report.files_moved,
            rep.links_skipped == self.report.links_skipped,
            rep.backup_left_at is None,
    {
        RelocateReport {
            src: self.report.src.clone(),
            dest: self.report.dest.clone(),
            bytes_moved: self.report.bytes_moved,
            files_moved: self.report.files_moved,
            links_skipped: self.report.links_skipped,
            backup_left_at: None,
        }
    }

    /// Ends the move with `err`.
    fn finish_err(&mut self, err: RelocateError) -> (a: RelocateAction)
        ensures
            final(self).phase() == Phase::Finished,
            same_setup(*old(self), *final(self)),
            same_progress(*old(self), *final(self)),
            final(self).pending() == old(self).pending(),
            final(self).report == old(self).report,
            a == RelocateAction::Finish(Err(err)),
    {
        self.phase = Phase::Finished;
        RelocateAction::Finish(Err(err))
    }

    /// Ends the move with the held error.
    fn finish_pending(&mut self) -> (a: RelocateAction)
        requires
            old(self).pending is Some,
        ensures
            final(self).phase() == Phase::Finished,
            same_setup(*old(self), *final(self)),
            same_progress(*old(self), *final(self)),
            final(self).report == old(self).report,
            a matches RelocateAction::Finish(Err(y)) && old(self).pending() == Some(y),
    {
        let mut held: Option<RelocateError> = None;
        std::mem::swap(&mut held, &mut self.pending);
        self.phase = Phase::Finished;
        match held {
            Some(err) => RelocateAction::Finish(Err(err)),
            None => unreached(),
        }
    }

    /// Takes the report of the last step; returns what to do next.
    pub fn step(&mut self, event: RelocateEvent, now: u64) -> (a: RelocateAction)
        requires
            old(self).wf(),
            accepts(old(self).phase(), event),
        ensures
            final(self).wf(),
            transition(*old(self), event, now, *final(self), a),
    {
        match self.phase {
            Phase::Start => {
                self.phase = Phase::InspectingSource;
                RelocateAction::InspectSource { path: self.paths.src.clone() }
            },
            Phase::InspectingSource => {
                if let RelocateEvent::SourceInspected { readable, is_symlink, is_dir } = event {
                    if !readable {
                        let p = self.paths.src.clone();
                        return self.finish_err(RelocateError::SourceNotFound(p));
                    }
                    if is_symlink {
                        let p = self.paths.src.clone();
                        return self.finish_err(RelocateError::SourceIsLink(p));
                    }
                    if !is_dir {
                        let p = self.paths.src.clone();
                        return self.finish_err(RelocateError::SourceNotFound(p));
                    }
                    if self.paths.dir_name.is_none() {
                        return self.finish_err(RelocateError::SourceIsRoot);
                    }
                    if self.source_tier == Tier::OsCritical {
                        let p = self.paths.src.clone();
                        return self.finish_err(RelocateError::SourceIsOsCritical(p));
                    }
                    self.phase = Phase::LocatingSelf;
                    RelocateAction::LocateSelf { path: self.paths.src.clone() }
                } else {
                    unreached()
                }
            },
            Phase::LocatingSelf => {
                if let RelocateEvent::SelfLocated { source, executable, working_dir, data_folder } = event {
                    if let Some(what) = contains_self(
                        source.as_str(),
                        &executable,
                        &working_dir,
                        &data_folder,
                    ) {
                        return self.finish_err(RelocateError::SourceContainsSelf(what));
                    }
                    self.phase = Phase::CheckingDestParent;
                    RelocateAction::CheckIsDir { path: self.paths.dest_parent.clone() }
                } else {
                    unreached()
                }
            },
            Phase::CheckingDestParent => {
                if let RelocateEvent::Checked(is_dir) = event {
                    if !is_dir {
                        let p = self.paths.dest_parent.clone();
                        return self.finish_err(RelocateError::DestNotFound(p));
                    }
                    if self.dest_inside {
                        return self.finish_err(RelocateError::DestInsideSource);
                    }
                    self.phase = Phase::CheckingDest;
                    RelocateAction::CheckExists { path: self.paths.dest.clone() }
                } else {
                    unreached()
                }
            },
            Phase::CheckingDest => {
                if let RelocateEvent::Checked(exists) = event {
                    if exists {
                        let p = self.paths.dest.clone();
                        return self.finish_err(RelocateError::DestOccupied(p));
                    }
                    self.phase = Phase::Preparing;
                    RelocateAction::Emit(
                        RelocateProgress {
                            phase: String::from_str("preparing"),
                            bytes_done: 0,
                            bytes_total: 0,
                            current_file: String::new(),
                        },
                    )
                } else {
                    unreached()
                }
            },
            Phase::Preparing => {
                self.phase = Phase::Measuring;
                RelocateAction::MeasureTree { path: self.paths.src.clone() }
            },
            Phase::Measuring => {
                match event {
                    RelocateEvent::Measured(Ok(n)) => {
                        self.needed = n;
                        self.phase = Phase::QueryingSpace;
                        RelocateAction::QueryFreeSpace { path: self.paths.dest_parent.clone() }
                    },
                    RelocateEvent::Measured(Err(x)) => self.finish_err(RelocateError::Io(x)),
                    _ => unreached(),
                }
            },
            Phase::QueryingSpace => {
                match event {
                    RelocateEvent::Measured(Ok(available)) => {
                        if insufficient_space(self.needed, available) {
                            let needed = self.needed;
                            return self.finish_err(
                                RelocateError::InsufficientSpace { needed, available },
                            );
                        }
                        self.phase = Phase::CheckingBackup;
                        RelocateAction::CheckExists { path: self.paths.backup.clone() }
                    },
                    RelocateEvent::Measured(Err(x)) => self.finish_err(RelocateError::Io(x)),
                    _ => unreached(),
                }
            },
            Phase::CheckingBackup => {
                if let RelocateEvent::Checked(exists) = event {
                    if exists {
                        let p = self.paths.backup.clone();
                        return self.finish_err(RelocateError::BackupLeftover(p));
                    }
                    self.phase = Phase::SettingAside(0);
                    RelocateAction::Rename {
                        from: self.paths.src.clone(),
                        to: self.paths.backup.clone(),
                    }
                } else {
                    unreached()
                }
            },
            Phase::SettingAside(k) => {
                match event {
                    RelocateEvent::Renamed { result: Ok(_), os_code } => {
                        self.report.bytes_moved = 0;
                        self.report.files_moved = 0;
                        self.report.links_skipped = 0;
                        self.sink = ProgressSink {
                            bytes_total: self.needed,
                            bytes_done: 0,
                            current_file: String::new(),
                            last_emit: now,
                        };
                        self.phase = Phase::StartingCopy;
                        RelocateAction::Emit(self.sink.emit_now("copying", 0, now))
                    },
                    RelocateEvent::Renamed { result: Err(x), os_code } => {
                        if k < 3 {
                            self.phase = Phase::AwaitingRetry(k + 1);
                            RelocateAction::Sleep { millis: 150 * (k + 1) }
                        } else if os_code == Some(5i32) || os_code == Some(32i32) {
                            self.finish_err(RelocateError::FolderInUse(x))
                        } else {
                            self.finish_err(RelocateError::BackupRenameFailed(x))
                        }
                    },
                    _ => unreached(),
                }
            },
            Phase::AwaitingRetry(k) => {
                self.phase = Phase::SettingAside(k);
                RelocateAction::Rename { from: self.paths.src.clone(), to: self.paths.backup.clone() }
            },
            Phase::StartingCopy => {
                self.phase = Phase::Copying;
                RelocateAction::CopyTree { from: self.paths.backup.clone(), to: self.paths.dest.clone() }
            },
            Phase::Copying => {
                match event {
                    RelocateEvent::Copied(Ok(_)) => {
                        self.phase = Phase::Finalizing;
                        proof {
                            assert(self.sink.bytes_done + 0 <= u64::MAX);
                        }
                        RelocateAction::Emit(self.sink.emit_now("finalizing", 0, now))
                    },
                    RelocateEvent::Copied(Err(x)) => {
                        self.pending = Some(x);
                        self.phase = Phase::DroppingCopy;
                        RelocateAction::RemoveTree { path: self.paths.dest.clone() }
                    },
                    _ => unreached(),
                }
            },
            Phase::DroppingCopy => {
                self.phase = Phase::Restoring(0, Resume::AfterCopyFailure);
                RelocateAction::Rename { from: self.paths.backup.clone(), to: self.paths.src.clone() }
            },
            Phase::Restoring(k, r) => {
                if let RelocateEvent::Renamed { result, os_code } = event {
                    if result.is_err() && k < 3 {
                        self.phase = Phase::AwaitingRestore(k + 1, r);
                        return RelocateAction::Sleep { millis: 150 * (k + 1) };
                    }
                    match r {
                        Resume::AfterCopyFailure => self.finish_pending(),
                        Resume::AfterLinkFailure => {
                            self.phase = Phase::DroppingCopyAfterLink;
                            RelocateAction::RemoveTree { path: self.paths.dest.clone() }
                        },
                    }
                } else {
                    unreached()
                }
            },
            Phase::AwaitingRestore(k, r) => {
                self.phase = Phase::Restoring(k, r);
                RelocateAction::Rename { from: self.paths.backup.clone(), to: self.paths.src.clone() }
            },
            Phase::Finalizing => {
                self.phase = Phase::Linking;
                RelocateAction::CreateJunction {
                    target: self.paths.dest.clone(),
                    link: self.paths.src.clone(),
                }
            },
            Phase::Linking => {
                match event {
                    RelocateEvent::Linked(Ok(_)) => {
                        self.phase = Phase::RemovingBackup;
                        RelocateAction::RemoveTree { path: self.paths.backup.clone() }
                    },
                    RelocateEvent::Linked(Err(x)) => {
                        self.pending = Some(RelocateError::JunctionFailed(x));
                        self.phase = Phase::DroppingLink;
                        RelocateAction::RemoveTree { path: self.paths.src.clone() }
                    },
                    _ => unreached(),
                }
            },
            Phase::DroppingLink => {
                self.phase = Phase::Restoring(0, Resume::AfterLinkFailure);
                RelocateAction::Rename { from: self.paths.backup.clone(), to: self.paths.src.clone() }
            },
            Phase::DroppingCopyAfterLink => self.finish_pending(),
            Phase::RemovingBackup => {
                if let RelocateEvent::Removed(removed) = event {
                    let mut rep = self.current_report();
                    if !removed {
                        rep.backup_left_at = Some(self.paths.backup.clone());
                    }
                    self.phase = Phase::Finished;
                    RelocateAction::Finish(Ok(rep))
                } else {
                    unreached()
                }
            },
            Phase::Finished => unreached(),
        }
    }

    /// The report's counters so far: bytes moved, files moved, links skipped.
    pub fn moved(&self) -> (r: (u64, u64, u64))
        ensures
            r == self.counts(),
    {
        (self.report.bytes_moved, self.report.files_moved, self.report.links_skipped)
    }

    /// Bytes of fully copied files so far.
    pub fn bytes_done(&self) -> (r: u64)
        ensures
            r == self.progress_state().1,
    {
        self.sink.bytes_done
    }

    /// Whether a "copying" event is due at `now`.
    pub fn copy_event_due(&self, now: u64) -> (r: bool)
        ensures
            r == progress_due(self.progress_state().3, now),
    {
        self.sink.event_due(now)
    }

    /// During the copy: `path` is the file being copied now.
    pub fn start_file(&mut self, path: String)
        requires
            old(self).wf(),
        ensures
            final(self).wf(),
            same_setup(*old(self), *final(self)),
            final(self).phase() == old(self).phase(),
            final(self).pending() == old(self).pending(),
            final(self).needed() == old(self).needed(),
            final(self).counts() == old(self).counts(),
            final(self).progress_state() == (
                old(self).progress_state().0,
                old(self).progress_state().1,
                path@,
                old(self).progress_state().3,
            ),
    {
        self.sink.current_file = path;
    }

    /// During the copy: `in_file_bytes` of the current file are copied; a
    /// "copying" event if one is due.
    pub fn file_progress(&mut self, in_file_bytes: u64, now: u64) -> (p: Option<RelocateProgress>)
        requires
            old(self).wf(),
            progress_due(old(self).progress_state().3, now) ==> old(self).progress_state().1
                + in_file_bytes <= u64::MAX,
        ensures
            final(self).wf(),
            same_setup(*old(self), *final(self)),
            final(self).phase() == old(self).phase(),
            final(self).pending() == old(self).pending(),
            final(self).needed() == old(self).needed(),
            final(self).counts() == old(self).counts(),
            final(self).progress_state().0 == old(self).progress_state().0,
            final(self).progress_state().1 == old(self).progress_state().1,
            final(self).progress_state().2 == old(self).progress_state().2,
            progress_due(old(self).progress_state().3, now) ==> {
                &&& p matches Some(e)
                &&& e.phase@ == "copying"@
                &&& e.bytes_done == old(self).progress_state().1 + in_file_bytes
                &&& e.bytes_total == old(self).progress_state().0
                &&& e.current_file@ == old(self).progress_state().2
                &&& final(self).progress_state().3 == now
            },
            !progress_due(old(self).progress_state().3, now) ==> p is None
                && final(self).progress_state().3 == old(self).progress_state().3,
    {
        self.sink.emit_throttled(in_file_bytes, now)
    }

    /// During the copy: a file of `bytes` bytes was copied; a "copying"
    /// event if one is due.
    pub fn copied_file(&mut self, bytes: u64, now: u64) -> (p: Option<RelocateProgress>)
        requires
            old(self).wf(),
            old(self).counts().0 + bytes <= u64::MAX,
            old(self).counts().1 < u64::MAX,
            old(self).progress_state().1 + bytes <= u64::MAX,
        ensures
            final(self).wf(),
            same_setup(*old(self), *final(self)),
            final(self).phase() == old(self).phase(),
            final(self).pending() == old(self).pending(),
            final(self).needed() == old(self).needed(),
            final(self).counts() == (
                (old(self).counts().0 + bytes) as u64,
                (old(self).counts().1 + 1) as u64,
                old(self).counts().2,
            ),
            final(self).progress_state().0 == old(self).progress_state().0,
            final(self).progress_state().1 == old(self).progress_state().1 + bytes,
            final(self).progress_state().2 == old(self).progress_state().2,
            progress_due(old(self).progress_state().3, now) ==> {
                &&& p matches Some(e)
                &&& e.phase@ == "copying"@
                &&& e.bytes_done == old(self).progress_state().1 + bytes
                &&& e.bytes_total == old(self).progress_state().0
                &&& e.current_file@ == old(self).progress_state().2
                &&& final(self).progress_state().3 == now
            },
            !progress_due(old(self).progress_state().3, now) ==> p is None
                && final(self).progress_state().3 == old(self).progress_state().3,
    {
        self.report.files_moved = self.report.files_moved + 1;
        self.report.bytes_moved = self.report.bytes_moved + bytes;
        self.sink.bytes_done = self.sink.bytes_done + bytes;
        self.sink.emit_throttled(0, now)
    }

    /// During the copy: a junction or symlink inside the tree was not copied.
    pub fn skipped_link(&mut self)
        requires
            old(self).wf(),
            old(self).counts().2 < u64::MAX,
        ensures
            final(self).wf(),
            same_setup(*old(self), *final(self)),
            final(self).phase() == old(self).phase(),
            final(self).pending() == old(self).pending(),
            final(self).needed() == old(self).needed(),
            final(self).counts() == (
                old(self).counts().0,
                old(self).counts().1,
                (old(self).counts().2 + 1) as u64,
            ),
            final(self).progress_state() == old(self).progress_state(),
    {
        self.report.links_skipped = self.report.links_skipped + 1;
    }
}

/// Whether a copying event is due at `now` after one at `last`.
pub open spec fn progress_due(last: u64, now: u64) -> bool {
    now >= last && now - last >= copy_progress_interval()
}

/// The phases after the original was set aside under the backup name.
pub open spec fn set_aside(p: Phase) -> bool {
    match p {
        Phase::StartingCopy | Phase::Copying | Phase::DroppingCopy | Phase::Restoring(_, _)
        | Phase::AwaitingRestore(_, _) | Phase::Finalizing | Phase::Linking | Phase::DroppingLink
        | Phase::DroppingCopyAfterLink | Phase::RemovingBackup => true,
        _ => false,
    }
}

/// The backup is kept until the junction resolves: the only removals are
/// of the backup after a successful junction, of the half-made junction at
/// the source after a failed one, and of the (partial) copy at the
/// destination while rolling back.
pub proof fn law_backup_kept_until_linked(
    s: Relocation,
    e: RelocateEvent,
    now: u64,
    t: Relocation,
    a: RelocateAction,
)
    requires
        transition(s, e, now, t, a),
    ensures
        a matches RelocateAction::RemoveTree { path } ==> {
            ||| s.phase() == Phase::Linking && (e matches RelocateEvent::Linked(Ok(_)) && path@
                == s.backup())
            ||| s.phase() == Phase::Linking && (e matches RelocateEvent::Linked(Err(_)) && path@
                == s.src())
            ||| s.phase() == Phase::Copying && (e matches RelocateEvent::Copied(Err(_)) && path@
                == s.dest())
            ||| s.phase() matches Phase::Restoring(_, Resume::AfterLinkFailure) && path@ == s.dest()
        },
{
}

/// Any failure after the original was set aside rolls back: such a move
/// never leaves the set-aside phases except to finish, it ends with an
/// error only once a rename of the backup back to the original has been
/// tried, and every entry into that restore issues the rename.
pub proof fn law_failure_restores_original(
    s: Relocation,
    e: RelocateEvent,
    now: u64,
    t: Relocation,
    a: RelocateAction,
)
    requires
        transition(s, e, now, t, a),
        set_aside(s.phase()),
    ensures
        set_aside(t.phase()) || t.phase() == Phase::Finished,
        a matches RelocateAction::Finish(Err(_)) ==> (s.phase() matches Phase::Restoring(
            _,
            Resume::AfterCopyFailure,
        ) || s.phase() == Phase::DroppingCopyAfterLink),
        t.phase() == Phase::DroppingCopyAfterLink ==> s.phase() matches Phase::Restoring(
            _,
            Resume::AfterLinkFailure,
        ),
        t.phase() matches Phase::Restoring(_, _) ==> (a matches RelocateAction::Rename { from, to }
            && from@ == s.backup() && to@ == s.src()),
        a matches RelocateAction::Finish(Ok(_)) ==> s.phase() == Phase::RemovingBackup,
{
}

/// Nothing is copied before every check passed and the original was set
/// aside: the copy starts only after a successful rename to the backup,
/// which is tried only once no backup is left over, which is looked for
/// only once the destination has room for the tree plus headroom.
pub proof fn law_copy_after_checks(
    s: Relocation,
    e: RelocateEvent,
    now: u64,
    t: Relocation,
    a: RelocateAction,
)
    requires
        transition(s, e, now, t, a),
    ensures
        a is CopyTree ==> s.phase() == Phase::StartingCopy,
        t.phase() == Phase::StartingCopy ==> (s.phase() matches Phase::SettingAside(_)
            && e matches RelocateEvent::Renamed { result: Ok(_), .. }),
        t.phase() matches Phase::SettingAside(_) ==> ((s.phase() == Phase::CheckingBackup
            && (e matches RelocateEvent::Checked(exists) && !exists)) || s.phase() matches Phase::AwaitingRetry(
            _,
        )),
        t.phase() == Phase::CheckingBackup ==> (s.phase() == Phase::QueryingSpace
            && (e matches RelocateEvent::Measured(Ok(available)) && !lacks_space(
            s.needed(),
            available,
        ))),
        t.phase() == Phase::QueryingSpace ==> s.phase() == Phase::Measuring,
        t.phase() == Phase::Measuring ==> s.phase() == Phase::Preparing,
        t.phase() == Phase::Preparing ==> (s.phase() == Phase::CheckingDest && (e matches RelocateEvent::Checked(
            exists,
        ) && !exists)),
        t.phase() == Phase::CheckingDest ==> (s.phase() == Phase::CheckingDestParent
            && !s.dest_inside_source()),
        t.phase() == Phase::CheckingDestParent ==> s.phase() == Phase::LocatingSelf,
        t.phase() == Phase::LocatingSelf ==> (s.phase() == Phase::InspectingSource && s.has_dir_name()
            && s.source_tier() != Tier::OsCritical),
{
}


/// Setting the original aside always renames the source to the backup,
/// on the first attempt and on every retry; a retry keeps its attempt
/// number.
pub proof fn law_set_aside_renames_source_to_backup(
    s: Relocation,
    e: RelocateEvent,
    now: u64,
    t: Relocation,
    a: RelocateAction,
)
    requires
        transition(s, e, now, t, a),
        t.phase() matches Phase::SettingAside(_),
    ensures
        a matches RelocateAction::Rename { from, to } && from@ == s.src() && to@ == s.backup(),
        t.phase() == Phase::SettingAside(0) || s.phase() == Phase::AwaitingRetry(
            t.phase()->SettingAside_0,
        ),
{
}

/// Renames go one of two ways: the source to the backup when setting the
/// original aside, or the backup to the source when restoring it.
pub proof fn law_rename_direction(
    s: Relocation,
    e: RelocateEvent,
    now: u64,
    t: Relocation,
    a: RelocateAction,
)
    requires
        transition(s, e, now, t, a),
    ensures
        a matches RelocateAction::Rename { from, to } ==> {
            ||| from@ == s.src() && to@ == s.backup() && t.phase() matches Phase::SettingAside(_)
            ||| from@ == s.backup() && to@ == s.src() && t.phase() matches Phase::Restoring(_, _)
        },
{
}
} // verus!
