//! The per-file decisions of a folder scan, shared by the manual full scan,
//! the realtime watcher and the network-share poller: whether a discovered
//! file changed, how an already-known path is reconciled, whether a new path
//! follows an offline video that moved, which duplicate candidates to
//! record, and how outcomes add up in the scan summary.

use vstd::prelude::*;

verus! {

/// How a discovered file compares with what the catalog knows at its path.
#[derive(Clone, Copy, Debug, PartialEq, Eq, Structural)]
pub enum FileClassification {
    /// Known, with the same size and modification time: no rehash needed.
    Unchanged,
    /// Known, but its size or modification time differs (or the row predates
    /// mtime tracking): its quick hash must be recomputed.
    NeedsRehash,
    /// Nothing is known at this path.
    NewCandidate,
}

/// What the catalog knows about a path: its stored size and modification
/// time (`None` for rows written before mtime tracking existed).
#[derive(Clone, Copy, Debug, PartialEq, Eq, Structural)]
pub struct KnownFileMeta {
    pub file_size: u64,
    pub mtime: Option<i64>,
}

/// The classification `classify_discovered_file` computes.
pub open spec fn classification_of(file_size: u64, mtime: i64, known: Option<KnownFileMeta>) -> FileClassification {
    match known {
        None => FileClassification::NewCandidate,
        Some(k) => if k.file_size == file_size && k.mtime == Some(mtime) {
            FileClassification::Unchanged
        } else {
            FileClassification::NeedsRehash
        },
    }
}

/// A path the catalog does not know is a new candidate. A known one is
/// unchanged exactly when its stored size equals the discovered size and its
/// stored mtime is the discovered mtime; a difference in either (or no
/// stored mtime) asks for a rehash.
pub proof fn lemma_classification_follows_size_and_mtime(
    file_size: u64,
    mtime: i64,
    known: Option<KnownFileMeta>,
)
    ensures
        known is None <==> classification_of(file_size, mtime, known)
            == FileClassification::NewCandidate,
        known matches Some(k) ==> (classification_of(file_size, mtime, known)
            == FileClassification::Unchanged <==> (k.file_size == file_size && k.mtime == Some(mtime))),
        known matches Some(k) ==> (classification_of(file_size, mtime, known)
            == FileClassification::NeedsRehash <==> (k.file_size != file_size || k.mtime != Some(
            mtime,
        ))),
        known matches Some(k) ==> k.mtime is None ==> classification_of(file_size, mtime, known)
            == FileClassification::NeedsRehash,
{
}

/// Classifies a discovered file of `file_size` bytes modified at `mtime`
/// against the catalog's knowledge of its path. A missing stored mtime never
/// counts as unchanged.
pub fn classify_discovered_file(file_size: u64, mtime: i64, known: Option<KnownFileMeta>) -> (c:
    FileClassification)
    ensures
        c == classification_of(file_size, mtime, known),
        known is None <==> c == FileClassification::NewCandidate,
        known matches Some(k) ==> (c == FileClassification::Unchanged <==> (k.file_size == file_size
            && k.mtime == Some(mtime))),
        known matches Some(k) ==> (c == FileClassification::NeedsRehash <==> (k.file_size != file_size
            || k.mtime != Some(mtime))),
{
    match known {
        None => FileClassification::NewCandidate,
        Some(k) => {
            let same_mtime = match k.mtime {
                Some(m) => m == mtime,
                None => false,
            };
            if k.file_size == file_size && same_mtime {
                FileClassification::Unchanged
            } else {
                FileClassification::NeedsRehash
            }
        },
    }
}

/// The outcome of processing one detected file.
pub enum ProcessOutcome {
    Registered,
    Reconciled,
    Unchanged,
    /// An offline video matched by quick hash and size was reactivated at
    /// the new path.
    PathFollowed { video_id: String },
    /// An offline video matched, but its new path already belongs to a
    /// different online video.
    BlockedByCollision { video_id: String, colliding_video_id: String },
    /// The file name holds a machine-dependent character.
    SkippedInvalidName { detected_char: char },
    /// The file could not be opened or hashed; retried on the next pass.
    SkippedUnreadable,
}

/// Whether an outcome changed the video list, so the user interface should
/// refetch it.
pub open spec fn changes_catalog(o: ProcessOutcome) -> bool {
    o is Registered || o is Reconciled || o is PathFollowed
}

/// Whether the user interface must refetch the list after `o`.
pub fn outcome_changes_catalog(o: &ProcessOutcome) -> (b: bool)
    ensures
        b == changes_catalog(*o),
{
    match o {
        ProcessOutcome::Registered => true,
        ProcessOutcome::Reconciled => true,
        ProcessOutcome::PathFollowed { .. } => true,
        _ => false,
    }
}

/// The status `offline`.
pub open spec fn is_offline_status(status: Seq<char>) -> bool {
    status == seq!['o', 'f', 'f', 'l', 'i', 'n', 'e']
}

/// Whether a stored status is `offline`.
pub fn status_is_offline(status: &str) -> (b: bool)
    ensures
        b == is_offline_status(status@),
{
    let s = crate::text::chars_of(status);
    let offline = vec!['o', 'f', 'f', 'l', 'i', 'n', 'e'];
    assert(offline@ =~= seq!['o', 'f', 'f', 'l', 'i', 'n', 'e']);
    crate::text::vec_eq(&s, &offline)
}

/// What to do with a known path whose file is unchanged on disk.
pub struct UnchangedPlan {
    /// Flip the row back to online (it was offline).
    pub set_online: bool,
    pub outcome: ProcessOutcome,
}

/// An unchanged file at a known path reconnects an offline row (one status
/// write, `Reconciled`); an online row needs no write at all (`Unchanged`).
pub fn plan_unchanged_known_path(known_status: &str) -> (p: UnchangedPlan)
    ensures
        p.set_online == is_offline_status(known_status@),
        is_offline_status(known_status@) ==> p.outcome is Reconciled,
        !is_offline_status(known_status@) ==> p.outcome is Unchanged,
{
    if status_is_offline(known_status) {
        UnchangedPlan { set_online: true, outcome: ProcessOutcome::Reconciled }
    } else {
        UnchangedPlan { set_online: false, outcome: ProcessOutcome::Unchanged }
    }
}

/// What to do with a known path whose file changed, once its quick hash
/// has (or has not) been computed.
pub struct RehashPlan {
    /// Refresh the row's size, mtime and quick hash.
    pub write_metadata: bool,
    /// Flip the row back to online.
    pub set_online: bool,
    pub outcome: ProcessOutcome,
}

/// A changed file whose hash could not be computed is left as it is
/// (`SkippedUnreadable`); otherwise its metadata is refreshed in place, an
/// offline row is reconnected, and the outcome is `Reconciled`.
pub fn plan_rehashed_known_path(hash_computed: bool, known_status: &str) -> (p: RehashPlan)
    ensures
        !hash_computed ==> !p.write_metadata && !p.set_online && p.outcome is SkippedUnreadable,
        hash_computed ==> p.write_metadata && p.set_online == is_offline_status(known_status@)
            && p.outcome is Reconciled,
{
    if !hash_computed {
        RehashPlan { write_metadata: false, set_online: false, outcome: ProcessOutcome::SkippedUnreadable }
    } else {
        RehashPlan {
            write_metadata: true,
            set_online: status_is_offline(known_status),
            outcome: ProcessOutcome::Reconciled,
        }
    }
}

/// The offline rows whose quick hash and size coincide with a rehashed
/// known row, minus the known row itself.
pub open spec fn other_ids(ids: Seq<String>, known_id: Seq<char>) -> Seq<String>
    decreases ids.len(),
{
    if ids.len() == 0 {
        Seq::empty()
    } else if ids.last()@ == known_id {
        other_ids(ids.drop_last(), known_id)
    } else {
        other_ids(ids.drop_last(), known_id).push(ids.last())
    }
}

proof fn lemma_other_ids_excludes(ids: Seq<String>, known_id: Seq<char>)
    ensures
        forall|i: int| 0 <= i < other_ids(ids, known_id).len() ==> #[trigger] other_ids(ids, known_id)[i]@ != known_id,
    decreases ids.len(),
{
    if ids.len() > 0 {
        lemma_other_ids_excludes(ids.drop_last(), known_id);
        let prev = other_ids(ids.drop_last(), known_id);
        if ids.last()@ != known_id {
            let cur = prev.push(ids.last());
            assert forall|i: int| 0 <= i < cur.len() implies #[trigger] cur[i]@ != known_id by {
                if i < prev.len() {
                    assert(cur[i] == prev[i]);
                }
            }
        }
    }
}

/// The offline candidates a rehash coincidence records as colliding with
/// the known row `known_id`, in candidate order. A row that is still
/// offline can match itself; it is never recorded as its own duplicate.
pub fn rehash_collision_candidates(candidate_ids: &Vec<String>, known_id: &str) -> (r: Vec<String>)
    ensures
        r@ == other_ids(candidate_ids@, known_id@),
        forall|i: int| 0 <= i < r.len() ==> #[trigger] r[i]@ != known_id@,
{
    let known = crate::text::chars_of(known_id);
    let mut r: Vec<String> = Vec::new();
    let mut i: usize = 0;
    while i < candidate_ids.len()
        invariant
            i <= candidate_ids.len(),
            known@ == known_id@,
            r@ == other_ids(candidate_ids@.subrange(0, i as int), known_id@),
        decreases candidate_ids.len() - i,
    {
        let ghost prev = candidate_ids@.subrange(0, i as int);
        assert(candidate_ids@.subrange(0, i + 1).drop_last() =~= prev);
        let id_chars = crate::text::chars_of(candidate_ids[i].as_str());
        if !crate::text::vec_eq(&id_chars, &known) {
            r.push(candidate_ids[i].clone());
        }
        i = i + 1;
    }
    assert(candidate_ids@.subrange(0, candidate_ids.len() as int) =~= candidate_ids@);
    proof {
        lemma_other_ids_excludes(candidate_ids@, known_id@);
    }
    r
}

/// An offline row that might have moved to a newly discovered path.
pub struct OfflineCandidate {
    pub video_id: String,
    pub file_path: String,
}

/// What a newly discovered path does with the offline rows sharing its
/// quick hash and size.
pub enum PathFollowDecision {
    /// Move the first (earliest registered) candidate to the new path.
    Reactivate { video_id: String },
    /// The first candidate cannot move: the new path already belongs to the
    /// online row `colliding_video_id`.
    BlockedByCollision { video_id: String, colliding_video_id: String },
    /// No candidate: register the file as a new video.
    NoMatch,
}

/// Decides path-follow from the candidates (earliest first) and the online
/// row, if any, that already holds the new path.
pub fn decide_path_follow(candidates: &Vec<OfflineCandidate>, collision: Option<String>) -> (d:
    PathFollowDecision)
    ensures
        candidates.len() == 0 ==> d is NoMatch,
        candidates.len() > 0 && collision is None ==> (d matches PathFollowDecision::Reactivate {
            video_id,
        } && video_id == candidates[0].video_id),
        candidates.len() > 0 && collision is Some ==> (d matches PathFollowDecision::BlockedByCollision {
            video_id,
            colliding_video_id,
        } && video_id == candidates[0].video_id && colliding_video_id == collision->0),
{
    if candidates.len() == 0 {
        return PathFollowDecision::NoMatch;
    }
    let video_id = candidates[0].video_id.clone();
    match collision {
        None => PathFollowDecision::Reactivate { video_id },
        Some(colliding_video_id) => PathFollowDecision::BlockedByCollision {
            video_id,
            colliding_video_id,
        },
    }
}

/// The outcome of a path-follow decision once its write (if any) was
/// attempted: a reactivation whose path rewrite failed leaves the offline
/// row alone and the file unregistered for this pass.
pub fn path_follow_outcome(decision: PathFollowDecision, write_succeeded: bool) -> (o:
    ProcessOutcome)
    ensures
        match decision {
            PathFollowDecision::Reactivate { video_id } => if write_succeeded {
                (o matches ProcessOutcome::PathFollowed { video_id: v } && v == video_id)
            } else {
                o is SkippedUnreadable
            },
            PathFollowDecision::BlockedByCollision { video_id, colliding_video_id } => (o matches ProcessOutcome::BlockedByCollision {
                video_id: v,
                colliding_video_id: c,
            } && v == video_id && c == colliding_video_id),
            PathFollowDecision::NoMatch => o is Registered,
        },
{
    match decision {
        PathFollowDecision::Reactivate { video_id } => if write_succeeded {
            ProcessOutcome::PathFollowed { video_id }
        } else {
            ProcessOutcome::SkippedUnreadable
        },
        PathFollowDecision::BlockedByCollision { video_id, colliding_video_id } => {
            ProcessOutcome::BlockedByCollision { video_id, colliding_video_id }
        },
        PathFollowDecision::NoMatch => ProcessOutcome::Registered,
    }
}

/// Totals of one scan.
#[derive(Clone, Copy, Debug, Default, PartialEq, Eq, Structural)]
pub struct ScanSummary {
    pub scanned: u32,
    pub registered: u32,
    /// Known paths whose content changed and/or that reconnected online.
    pub reconciled: u32,
    /// Known paths with matching size and mtime: no write at all.
    pub unchanged: u32,
    /// Files skipped for a machine-dependent file name.
    pub skipped: u32,
    /// Known online videos confirmed missing and flipped offline.
    pub went_offline: u32,
    /// Offline videos reactivated at a new path.
    pub reactivated: u32,
    /// Path-follow attempts blocked by a path collision.
    pub collisions: u32,
}

impl ScanSummary {
 /// All counters at zero.
    pub fn new() -> (s: ScanSummary)
        ensures
            s == (ScanSummary {
                scanned: 0,
                registered: 0,
                reconciled: 0,
                unchanged: 0,
                skipped: 0,
                went_offline: 0,
                reactivated: 0,
                collisions: 0,
            }),
    {
        ScanSummary {
            scanned: 0,
            registered: 0,
            reconciled: 0,
            unchanged: 0,
            skipped: 0,
            went_offline: 0,
            reactivated: 0,
            collisions: 0,
        }
    }

    /// Counts one discovered file.
    pub fn record_scanned(&mut self)
        ensures
            *final(self) == (ScanSummary { scanned: old(self).scanned.wrapping_add(1), ..*old(self) }),
    {
        self.scanned = self.scanned.wrapping_add(1);
    }

    /// Adds one processed file's outcome to its counter. An unreadable file
    /// counts nowhere.
    pub fn record_outcome(&mut self, outcome: &ProcessOutcome)
        ensures
            match *outcome {
                ProcessOutcome::Registered => *final(self) == (ScanSummary {
                    registered: old(self).registered.wrapping_add(1),
                    ..*old(self)
                }),
                ProcessOutcome::Reconciled => *final(self) == (ScanSummary {
                    reconciled: old(self).reconciled.wrapping_add(1),
                    ..*old(self)
                }),
                ProcessOutcome::Unchanged => *final(self) == (ScanSummary {
                    unchanged: old(self).unchanged.wrapping_add(1),
                    ..*old(self)
                }),
                ProcessOutcome::SkippedInvalidName { .. } => *final(self) == (ScanSummary {
                    skipped: old(self).skipped.wrapping_add(1),
                    ..*old(self)
                }),
                ProcessOutcome::SkippedUnreadable => *final(self) == *old(self),
                ProcessOutcome::PathFollowed { .. } => *final(self) == (ScanSummary {
                    reactivated: old(self).reactivated.wrapping_add(1),
                    ..*old(self)
                }),
                ProcessOutcome::BlockedByCollision { .. } => *final(self) == (ScanSummary {
                    collisions: old(self).collisions.wrapping_add(1),
                    ..*old(self)
                }),
            },
    {
        match outcome {
            ProcessOutcome::Registered => self.registered = self.registered.wrapping_add(1),
            ProcessOutcome::Reconciled => self.reconciled = self.reconciled.wrapping_add(1),
            ProcessOutcome::Unchanged => self.unchanged = self.unchanged.wrapping_add(1),
            ProcessOutcome::SkippedInvalidName { .. } => self.skipped = self.skipped.wrapping_add(1),
            ProcessOutcome::SkippedUnreadable => {},
            ProcessOutcome::PathFollowed { .. } => self.reactivated = self.reactivated.wrapping_add(
                1,
            ),
            ProcessOutcome::BlockedByCollision { .. } => self.collisions = self.collisions.wrapping_add(
                1,
            ),
        }
    }

    /// Adds the videos one folder's missing-file check flipped offline.
    pub fn record_went_offline(&mut self, count: u32)
        ensures
            *final(self) == (ScanSummary {
                went_offline: old(self).went_offline.wrapping_add(count),
                ..*old(self)
            }),
    {
        self.went_offline = self.went_offline.wrapping_add(count);
    }
}

/// How an unreadable directory met during a walk is remembered for the
/// missing-file check: its plain path followed by `\`, so every file below
/// it is recognised by prefix.
pub fn inaccessible_dir_entry(plain_path: &str) -> (r: String)
    ensures
        r@ == plain_path@.push('\\'),
{
    let mut v = crate::text::chars_of(plain_path);
    v.push('\\');
    crate::text::string_of(&v)
}

} // verus!
