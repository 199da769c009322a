//! Keeping the catalog in step with the watch folders between scans: which
//! folders get a realtime watcher and which are polled, what a single file
//! event means, and the stop switch and timer of a network-share poller.

use vstd::prelude::*;

verus! {

/// The kind of drive a watch folder lives on.
#[derive(Clone, Copy, Debug, PartialEq, Eq, Structural)]
pub enum DriveKind {
    Local,
    Network,
    Removable,
    Unknown,
}

/// Whether a folder gets a realtime watcher: only a detected local or
/// removable drive does. A network drive, an unknown one, or a failed
/// detection (`None`) falls back to the safer polling path.
pub open spec fn watched_in_realtime(kind: Option<DriveKind>) -> bool {
    kind == Some(DriveKind::Local) || kind == Some(DriveKind::Removable)
}

/// The folders (in order) whose detection result satisfies `realtime` or
/// not, as selected.
pub open spec fn folders_where(folders: Seq<String>, kinds: Seq<Option<DriveKind>>, realtime: bool) -> Seq<String>
    decreases folders.len(),
{
    if folders.len() == 0 || kinds.len() != folders.len() {
        Seq::empty()
    } else {
        let rest = folders_where(folders.drop_last(), kinds.drop_last(), realtime);
        if watched_in_realtime(kinds.last()) == realtime {
            rest.push(folders.last())
        } else {
            rest
        }
    }
}

proof fn lemma_folders_where_len(folders: Seq<String>, kinds: Seq<Option<DriveKind>>)
    requires
        kinds.len() == folders.len(),
    ensures
        folders_where(folders, kinds, true).len() + folders_where(folders, kinds, false).len()
            == folders.len(),
    decreases folders.len(),
{
    if folders.len() > 0 {
        lemma_folders_where_len(folders.drop_last(), kinds.drop_last());
    }
}

/// Watch folders split by how they are kept up to date.
pub struct FolderRouting {
    /// Watched in realtime.
    pub local: Vec<String>,
    /// Polled periodically.
    pub polled: Vec<String>,
}

/// Splits the watch folders by drive kind (`kinds[i]` is the detection
/// result for `folders[i]`, `None` when detection failed), keeping their
/// order; every folder lands in exactly one of the two lists.
pub fn route_folders(folders: &Vec<String>, kinds: &Vec<Option<DriveKind>>) -> (r: FolderRouting)
    requires
        kinds.len() == folders.len(),
    ensures
        r.local@ == folders_where(folders@, kinds@, true),
        r.polled@ == folders_where(folders@, kinds@, false),
        r.local.len() + r.polled.len() == folders.len(),
{
    let mut local: Vec<String> = Vec::new();
    let mut polled: Vec<String> = Vec::new();
    let mut i: usize = 0;
    while i < folders.len()
        invariant
            kinds.len() == folders.len(),
            i <= folders.len(),
            local@ == folders_where(folders@.subrange(0, i as int), kinds@.subrange(0, i as int), true),
            polled@ == folders_where(folders@.subrange(0, i as int), kinds@.subrange(0, i as int), false),
        decreases folders.len() - i,
    {
        assert(folders@.subrange(0, i + 1).drop_last() =~= folders@.subrange(0, i as int));
        assert(kinds@.subrange(0, i + 1).drop_last() =~= kinds@.subrange(0, i as int));
        let realtime = match kinds[i] {
            Some(DriveKind::Local) => true,
            Some(DriveKind::Removable) => true,
            _ => false,
        };
        if realtime {
            local.push(folders[i].clone());
        } else {
            polled.push(folders[i].clone());
        }
        i = i + 1;
    }
    assert(folders@.subrange(0, i as int) =~= folders@);
    assert(kinds@.subrange(0, i as int) =~= kinds@);
    proof {
        lemma_folders_where_len(folders@, kinds@);
    }
    FolderRouting { local, polled }
}

/// The kind of a normalized file-system event.
#[derive(Clone, Copy, Debug, PartialEq, Eq, Structural)]
pub enum WatchEventKind {
    Created,
    Modified,
    Removed,
}

/// What a file event asks of the catalog.
#[derive(Clone, Copy, Debug, PartialEq, Eq, Structural)]
pub enum WatchAction {
    /// Not a video file (or no file name): nothing to do.
    Ignore,
    /// Created or modified video: stat it and process it like a scanned file.
    Process,
    /// Removed video: look its path up and maybe flip it offline.
    CheckRemoval,
}

/// What a file event asks for: nothing for a non-video file, processing
/// for a created or modified video, a removal check for a removed one.
pub fn watch_action(kind: WatchEventKind, is_video_file: bool) -> (a: WatchAction)
    ensures
        !is_video_file ==> a == WatchAction::Ignore,
        is_video_file && kind != WatchEventKind::Removed ==> a == WatchAction::Process,
        is_video_file && kind == WatchEventKind::Removed ==> a == WatchAction::CheckRemoval,
{
    if !is_video_file {
        WatchAction::Ignore
    } else {
        match kind {
            WatchEventKind::Removed => WatchAction::CheckRemoval,
            _ => WatchAction::Process,
        }
    }
}

/// The status `online`.
pub open spec fn online_status() -> Seq<char> {
    seq!['o', 'n', 'l', 'i', 'n', 'e']
}

/// The status `offline`.
pub open spec fn offline_status() -> Seq<char> {
    seq!['o', 'f', 'f', 'l', 'i', 'n', 'e']
}

/// The status a removed file's row moves to: an online row goes offline
/// (kept, never deleted); a row already offline is left as it is.
pub fn decide_removal_outcome(known_status: &str) -> (r: Option<String>)
    ensures
        known_status@ == online_status() ==> r is Some && r->0@ == offline_status(),
        known_status@ != online_status() ==> r is None,
{
    let s = crate::text::chars_of(known_status);
    let online = vec!['o', 'n', 'l', 'i', 'n', 'e'];
    assert(online@ =~= online_status());
    if crate::text::vec_eq(&s, &online) {
        let offline = vec!['o', 'f', 'f', 'l', 'i', 'n', 'e'];
        assert(offline@ =~= offline_status());
        Some(crate::text::string_of(&offline))
    } else {
        None
    }
}

/// Stop switch of a network-share poller: once stopped, it never runs
/// another pass.
pub struct NasPollHandle {
    stop_requested: bool,
}

impl View for NasPollHandle {
    type V = bool;

    closed spec fn view(&self) -> bool {
        self.stop_requested
    }
}

impl NasPollHandle {
 /// A switch not yet stopped.
    pub fn new() -> (h: NasPollHandle)
        ensures
            h@ == false,
    {
        NasPollHandle { stop_requested: false }
    }

    /// Asks the poller to stop at its next check.
    pub fn stop(&mut self)
        ensures
            final(self)@ == true,
    {
        self.stop_requested = true;
    }

 /// Whether a stop was requested.
    pub fn is_stopped(&self) -> (b: bool)
        ensures
            b == self@,
    {
        self.stop_requested
    }
}

/// The polling interval, in seconds, a stored setting asks for; a negative
/// setting means "no wait".
pub fn poll_interval_secs(setting: i64) -> (r: u64)
    ensures
        r == if setting < 0 { 0 } else { setting },
{
    if setting < 0 { 0 } else { setting as u64 }
}

/// The poller's clock between passes: it wakes every second and runs a pass
/// once `interval_secs` seconds have elapsed since the last one.
pub struct PollTimer {
    pub elapsed_secs: u64,
    pub interval_secs: u64,
}

impl PollTimer {
    /// The timer's own invariant: the elapsed time stays below the
    /// interval (or at zero for a zero interval).
    pub open spec fn wf(&self) -> bool {
        self.elapsed_secs == 0 || self.elapsed_secs < self.interval_secs
    }

 /// A timer that has just run a pass.
    pub fn new(interval_secs: u64) -> (t: PollTimer)
        ensures
            t.wf(),
            t.elapsed_secs == 0,
            t.interval_secs == interval_secs,
    {
        PollTimer { elapsed_secs: 0, interval_secs }
    }

    /// One second passes; returns whether a pass is due now (and restarts
    /// the count when it is).
    pub fn tick(&mut self) -> (due: bool)
        requires
            old(self).wf(),
        ensures
            final(self).wf(),
            final(self).interval_secs == old(self).interval_secs,
            due == (old(self).elapsed_secs + 1 >= old(self).interval_secs),
            final(self).elapsed_secs == if due { 0 } else { old(self).elapsed_secs + 1 },
    {
        self.elapsed_secs = self.elapsed_secs + 1;
        if self.elapsed_secs >= self.interval_secs {
            self.elapsed_secs = 0;
            true
        } else {
            false
        }
    }
}

/// After `ticks` seconds from a fresh start, a timer with a positive
/// interval has counted `ticks % interval` seconds since its last pass.
pub open spec fn elapsed_after(interval: nat, ticks: nat) -> nat {
    ticks % interval
}

/// A poller with a positive interval runs a pass exactly on every
/// `interval`-th tick: from `elapsed == ticks % interval`, the next tick is
/// due exactly when `ticks + 1` is a multiple of the interval, and leaves
/// `elapsed == (ticks + 1) % interval`.
pub proof fn law_poll_timer_period(interval: nat, ticks: nat, elapsed: nat)
    requires
        interval > 0,
        elapsed == elapsed_after(interval, ticks),
    ensures
        (elapsed + 1 >= interval) == ((ticks + 1) % interval == 0),
        (if elapsed + 1 >= interval { 0 } else { elapsed + 1 }) == elapsed_after(interval, ticks + 1),
{
    assert(elapsed < interval);
    if elapsed + 1 >= interval {
        assert(elapsed + 1 == interval);
        assert((ticks + 1) % interval == 0) by (nonlinear_arith)
            requires
                elapsed == ticks % interval,
                elapsed + 1 == interval,
                interval > 0,
        ;
    } else {
        assert((ticks + 1) % interval == elapsed + 1) by (nonlinear_arith)
            requires
                elapsed == ticks % interval,
                elapsed + 1 < interval,
                interval > 0,
        ;
    }
}

/// What a network-share pass does once its walk is over.
#[derive(Clone, Copy, Debug, PartialEq, Eq, Structural)]
pub enum NasPassEnd {
    /// Stopped mid-walk or before writing: skip the missing-file check.
    Abandon,
    /// Flip the confirmed-missing videos offline (and notify, if any).
    ApplyMissing,
}

/// A pass stopped mid-walk or before writing skips the missing-video check
/// entirely: it never judges from a partial listing.
pub fn nas_pass_end(aborted_mid_walk: bool, stop_requested: bool) -> (e: NasPassEnd)
    ensures
        e == (if aborted_mid_walk || stop_requested {
            NasPassEnd::Abandon
        } else {
            NasPassEnd::ApplyMissing
        }),
{
    if aborted_mid_walk || stop_requested {
        NasPassEnd::Abandon
    } else {
        NasPassEnd::ApplyMissing
    }
}

} // verus!
