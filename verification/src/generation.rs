//! Background thumbnail generation and metadata probing: the retry budget,
//! which videos still need work when the queue is rebuilt, how many workers
//! to start, and the pause switch of the thumbnail queue.

use vstd::prelude::*;
use crate::thumbnail_paths::THUMBNAILS_PER_VIDEO;

verus! {

/// Failed attempts after which a video is no longer retried automatically.
pub const MAX_GENERATION_ATTEMPTS: u32 = 3;

/// Worker threads for thumbnail generation.
pub const THUMBNAIL_WORKER_THREAD_COUNT: usize = 4;

/// Worker threads for metadata probing (cheaper than frame extraction).
pub const METADATA_WORKER_THREAD_COUNT: usize = 2;

/// Whether a video with `attempts` failed attempts may still be retried
/// automatically.
pub fn is_eligible_for_automatic_retry(attempts: u32) -> (b: bool)
    ensures
        b == (attempts < MAX_GENERATION_ATTEMPTS),
{
    attempts < MAX_GENERATION_ATTEMPTS
}

/// The stored attempt counter (an SQLite integer) read as the `u32` the
/// retry policy takes, as `as u32` truncates it.
pub open spec fn attempts_u32(attempts: i64) -> u32 {
    attempts as u32
}

/// Workers to start for `pending` queued videos: the pool size, or fewer
/// when there is less work than workers.
pub fn worker_count(pool_size: usize, pending: usize) -> (n: usize)
    ensures
        n == if pool_size < pending { pool_size } else { pending },
{
    if pool_size < pending { pool_size } else { pending }
}

/// Pause switch of the thumbnail queue: workers wait while it is set.
pub struct ThumbnailQueueHandle {
    paused: bool,
}

impl View for ThumbnailQueueHandle {
    type V = bool;

    closed spec fn view(&self) -> bool {
        self.paused
    }
}

impl ThumbnailQueueHandle {
    /// A queue that is running (not paused).
    pub fn new() -> (q: ThumbnailQueueHandle)
        ensures
            q@ == false,
    {
        ThumbnailQueueHandle { paused: false }
    }

    /// Pauses or resumes the queue; `is_paused` then reports `paused`.
    pub fn set_paused(&mut self, paused: bool)
        ensures
            final(self)@ == paused,
    {
        self.paused = paused;
    }

 /// Whether generation is paused.
    pub fn is_paused(&self) -> (b: bool)
        ensures
            b == self@,
    {
        self.paused
    }
}

impl Default for ThumbnailQueueHandle {
    fn default() -> (q: ThumbnailQueueHandle)
        ensures
            q@ == false,
    {
        ThumbnailQueueHandle::new()
    }
}

/// One online video as the thumbnail queue sees it.
pub struct ThumbnailCandidate {
    pub id: String,
    pub file_path: String,
    pub thumbnail_attempts: i64,
    pub thumbnail_ready: bool,
}

/// The thumbnail queue's verdict on one online video.
#[derive(Clone, Copy, Debug, PartialEq, Eq, Structural)]
pub enum ThumbnailResume {
    /// All slot files exist and the row already says so.
    Ready,
    /// All slot files exist but the row's ready flag is stale: set it.
    BackfillReady,
    /// Slot files are missing and attempts remain: generate them.
    Generate,
    /// Slot files are missing but the retry budget is spent.
    Exhausted,
}

/// The verdict `thumbnail_resume` reaches.
pub open spec fn resume_of(all_slots_exist: bool, thumbnail_ready: bool, attempts: i64) -> ThumbnailResume {
    if all_slots_exist {
        if thumbnail_ready {
            ThumbnailResume::Ready
        } else {
            ThumbnailResume::BackfillReady
        }
    } else if attempts_u32(attempts) < MAX_GENERATION_ATTEMPTS {
        ThumbnailResume::Generate
    } else {
        ThumbnailResume::Exhausted
    }
}

/// Files on disk decide first: when every slot file exists the video is
/// `Ready` (flag set) or `BackfillReady` (flag stale), whatever its attempt
/// count, and it is never queued for generation. Only a video with a missing
/// slot file is generated, while its attempts stay below the budget, and is
/// given up once they reach it.
pub proof fn lemma_existing_slots_are_never_regenerated(
    all_slots_exist: bool,
    thumbnail_ready: bool,
    attempts: i64,
)
    ensures
        all_slots_exist ==> resume_of(all_slots_exist, thumbnail_ready, attempts) == (if thumbnail_ready {
            ThumbnailResume::Ready
        } else {
            ThumbnailResume::BackfillReady
        }),
        resume_of(all_slots_exist, thumbnail_ready, attempts) == ThumbnailResume::Generate
            ==> !all_slots_exist,
        resume_of(all_slots_exist, thumbnail_ready, attempts) == ThumbnailResume::Exhausted
            ==> !all_slots_exist,
        !all_slots_exist ==> (resume_of(all_slots_exist, thumbnail_ready, attempts)
            == ThumbnailResume::Generate <==> attempts_u32(attempts) < MAX_GENERATION_ATTEMPTS),
{
}

/// Decides one video's fate when the queue is rebuilt. The filesystem (all
/// `THUMBNAILS_PER_VIDEO` slot files present) is authoritative; the row's
/// flag is only repaired from it.
pub fn thumbnail_resume(all_slots_exist: bool, thumbnail_ready: bool, attempts: i64) -> (r:
    ThumbnailResume)
    ensures
        r == resume_of(all_slots_exist, thumbnail_ready, attempts),
        all_slots_exist && thumbnail_ready ==> r == ThumbnailResume::Ready,
        all_slots_exist && !thumbnail_ready ==> r == ThumbnailResume::BackfillReady,
        r == ThumbnailResume::Generate ==> !all_slots_exist,
        r == ThumbnailResume::Exhausted ==> !all_slots_exist,
{
    if all_slots_exist {
        if thumbnail_ready {
            ThumbnailResume::Ready
        } else {
            ThumbnailResume::BackfillReady
        }
    } else if is_eligible_for_automatic_retry(attempts as u32) {
        ThumbnailResume::Generate
    } else {
        ThumbnailResume::Exhausted
    }
}

/// The work a rebuilt thumbnail queue finds.
pub struct ThumbnailWork {
    /// `(id, file_path)` of every video to generate, in row order.
    pub missing: Vec<(String, String)>,
    /// Ids whose ready flag must be backfilled, in row order.
    pub backfill: Vec<String>,
}

/// `(id, file_path)` of the rows still to generate, in order.
pub open spec fn missing_of(rows: Seq<ThumbnailCandidate>, complete: Seq<bool>) -> Seq<(String, String)>
    decreases rows.len(),
{
    if rows.len() == 0 || complete.len() != rows.len() {
        Seq::empty()
    } else {
        let rest = missing_of(rows.drop_last(), complete.drop_last());
        let row = rows.last();
        if resume_of(complete.last(), row.thumbnail_ready, row.thumbnail_attempts) is Generate {
            rest.push((row.id, row.file_path))
        } else {
            rest
        }
    }
}

/// Ids of the rows whose ready flag is stale, in order.
pub open spec fn backfill_of(rows: Seq<ThumbnailCandidate>, complete: Seq<bool>) -> Seq<String>
    decreases rows.len(),
{
    if rows.len() == 0 || complete.len() != rows.len() {
        Seq::empty()
    } else {
        let rest = backfill_of(rows.drop_last(), complete.drop_last());
        let row = rows.last();
        if resume_of(complete.last(), row.thumbnail_ready, row.thumbnail_attempts) is BackfillReady {
            rest.push(row.id)
        } else {
            rest
        }
    }
}

/// Splits the online videos into those still to generate and those whose
/// ready flag needs backfilling; `complete[i]` tells whether all slot files
/// of `rows[i]` exist.
pub fn list_videos_missing_thumbnails(rows: &Vec<ThumbnailCandidate>, complete: &Vec<bool>) -> (w:
    ThumbnailWork)
    requires
        complete.len() == rows.len(),
    ensures
        w.missing@ == missing_of(rows@, complete@),
        w.backfill@ == backfill_of(rows@, complete@),
{
    let mut missing: Vec<(String, String)> = Vec::new();
    let mut backfill: Vec<String> = Vec::new();
    let mut i: usize = 0;
    while i < rows.len()
        invariant
            complete.len() == rows.len(),
            i <= rows.len(),
            missing@ == missing_of(rows@.subrange(0, i as int), complete@.subrange(0, i as int)),
            backfill@ == backfill_of(rows@.subrange(0, i as int), complete@.subrange(0, i as int)),
        decreases rows.len() - i,
    {
        assert(rows@.subrange(0, i + 1).drop_last() =~= rows@.subrange(0, i as int));
        assert(complete@.subrange(0, i + 1).drop_last() =~= complete@.subrange(0, i as int));
        let row = &rows[i];
        match thumbnail_resume(complete[i], row.thumbnail_ready, row.thumbnail_attempts) {
            ThumbnailResume::Generate => {
                missing.push((row.id.clone(), row.file_path.clone()));
            },
            ThumbnailResume::BackfillReady => {
                backfill.push(row.id.clone());
            },
            _ => {},
        }
        i = i + 1;
    }
    assert(rows@.subrange(0, i as int) =~= rows@);
    assert(complete@.subrange(0, i as int) =~= complete@);
    ThumbnailWork { missing, backfill }
}

/// One online, not yet probed video as the metadata queue sees it.
pub struct MetadataCandidate {
    pub id: String,
    pub file_path: String,
    pub metadata_attempts: i64,
}

/// `(id, file_path)` of the rows whose probe budget is not spent, in order.
pub open spec fn probe_queue_of(rows: Seq<MetadataCandidate>) -> Seq<(String, String)>
    decreases rows.len(),
{
    if rows.len() == 0 {
        Seq::empty()
    } else {
        let rest = probe_queue_of(rows.drop_last());
        let row = rows.last();
        if attempts_u32(row.metadata_attempts) < MAX_GENERATION_ATTEMPTS {
            rest.push((row.id, row.file_path))
        } else {
            rest
        }
    }
}

/// `(id, file_path)` of every unprobed video whose retry budget is not spent,
/// in row order.
pub fn list_videos_missing_metadata(rows: &Vec<MetadataCandidate>) -> (r: Vec<(String, String)>)
    ensures
        r@ == probe_queue_of(rows@),
{
    let mut r: Vec<(String, String)> = Vec::new();
    let mut i: usize = 0;
    while i < rows.len()
        invariant
            i <= rows.len(),
            r@ == probe_queue_of(rows@.subrange(0, i as int)),
        decreases rows.len() - i,
    {
        assert(rows@.subrange(0, i + 1).drop_last() =~= rows@.subrange(0, i as int));
        let row = &rows[i];
        if is_eligible_for_automatic_retry(row.metadata_attempts as u32) {
            r.push((row.id.clone(), row.file_path.clone()));
        }
        i = i + 1;
    }
    assert(rows@.subrange(0, i as int) =~= rows@);
    r
}

/// The temporary file a slot is first extracted to: `<video_id>_<slot>.webp.tmp`.
pub fn tmp_slot_file_name(video_id: &str, slot: usize) -> (r: String)
    ensures
        r@ == crate::thumbnail_paths::slot_file_name(video_id@, slot as nat) + seq!['.', 't', 'm', 'p'],
{
    let name = crate::thumbnail_paths::thumbnail_file_name(video_id, slot);
    let mut v = crate::text::chars_of(name.as_str());
    v.push('.');
    v.push('t');
    v.push('m');
    v.push('p');
    assert(v@ =~= crate::thumbnail_paths::slot_file_name(video_id@, slot as nat) + seq!['.', 't', 'm', 'p']);
    crate::text::string_of(&v)
}

/// How a video's generation ends: every slot must be extracted; the first
/// slot that fails (after its fallback seek, if any) stops the rest and
/// fails the video, and only then does the attempt counter grow.
pub struct GenerationVerdict {
    pub succeeded: bool,
    /// Slots extracted before the run stopped (all of them on success).
    pub extracted: usize,
    pub increment_attempts: bool,
    pub mark_ready: bool,
}

/// Judges a generation run from the per-slot results in slot order
/// (`slot_ok[i]`: slot `i` was extracted, directly or through its fallback);
/// slots after the first failure are never attempted.
pub fn generation_verdict(slot_ok: &Vec<bool>) -> (v: GenerationVerdict)
    requires
        slot_ok.len() == THUMBNAILS_PER_VIDEO,
    ensures
        v.succeeded == (forall|i: int| 0 <= i < THUMBNAILS_PER_VIDEO ==> #[trigger] slot_ok@[i]),
        v.mark_ready == v.succeeded,
        v.increment_attempts == !v.succeeded,
        v.extracted <= THUMBNAILS_PER_VIDEO,
        forall|i: int| 0 <= i < v.extracted ==> #[trigger] slot_ok@[i],
        v.extracted < THUMBNAILS_PER_VIDEO ==> !slot_ok@[v.extracted as int],
{
    let mut i: usize = 0;
    while i < THUMBNAILS_PER_VIDEO
        invariant
            slot_ok.len() == THUMBNAILS_PER_VIDEO,
            i <= THUMBNAILS_PER_VIDEO,
            forall|j: int| 0 <= j < i ==> #[trigger] slot_ok@[j],
        decreases THUMBNAILS_PER_VIDEO - i,
    {
        if !slot_ok[i] {
            return GenerationVerdict {
                succeeded: false,
                extracted: i,
                increment_attempts: true,
                mark_ready: false,
            };
        }
        i = i + 1;
    }
    GenerationVerdict { succeeded: true, extracted: i, increment_attempts: false, mark_ready: true }
}

} // verus!
