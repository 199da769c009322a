//! Importing a legacy WhiteBrowser `.wb` library: the state each movie row
//! is registered with, the running tally and progress reporting, linking
//! legacy JPG thumbnails to offline rows, and folding tags onto existing
//! ones.

use vstd::prelude::*;
use crate::events::WbImportSummary;
use crate::records::WbImportOutcome;
use crate::text::{decimal, chars_of, string_of, append_str, vec_eq};
use crate::thumbnail_paths::THUMBNAILS_PER_VIDEO;

verus! {

/// Where an import reads from and writes to.
pub struct WbImportPaths {
    pub wb_path: String,
    pub thumbnail_folder: String,
    pub thumbnails_dir: String,
}

/// Movie rows between two progress notifications.
pub const PROGRESS_NOTIFY_INTERVAL: u32 = 50;

/// Progress is reported after every 50th row and after the last one.
pub fn should_notify_progress(processed: u32, total: u32) -> (b: bool)
    ensures
        b == (processed % PROGRESS_NOTIFY_INTERVAL == 0 || processed == total),
{
    processed % PROGRESS_NOTIFY_INTERVAL == 0 || processed == total
}

/// What inspecting a `.wb` movie's file found.
pub enum FileProbe {
    /// The file's metadata could not be read (missing, unreachable).
    Missing,
    /// The file exists but its modification time is unusable.
    NoMtime,
    /// The file exists but its quick hash could not be computed.
    HashFailed,
    /// The file was read: its size, mtime and quick hash.
    Hashed { file_size: u64, mtime: i64, quick_hash: u64 },
}

/// The state a `.wb` movie is registered with.
pub struct ResolvedFileState {
    pub status: String,
    pub quick_hash: String,
    pub mtime: i64,
    pub file_size: u64,
}

/// The status `online`.
pub open spec fn online_status() -> Seq<char> {
    seq!['o', 'n', 'l', 'i', 'n', 'e']
}

/// The status `offline`.
pub open spec fn offline_status() -> Seq<char> {
    seq!['o', 'f', 'f', 'l', 'i', 'n', 'e']
}

/// A readable file registers online with its real size, mtime and quick
/// hash (as a decimal numeral); anything else registers as an offline
/// placeholder with an empty hash, mtime 0 and size 0.
pub fn resolve_file_state(probe: FileProbe) -> (r: ResolvedFileState)
    ensures
        match probe {
            FileProbe::Hashed { file_size, mtime, quick_hash } => r.status@ == online_status()
                && r.quick_hash@ == decimal(quick_hash as nat) && r.mtime == mtime && r.file_size
                == file_size,
            _ => r.status@ == offline_status() && r.quick_hash@.len() == 0 && r.mtime == 0
                && r.file_size == 0,
        },
{
    match probe {
        FileProbe::Hashed { file_size, mtime, quick_hash } => {
            let online = vec!['o', 'n', 'l', 'i', 'n', 'e'];
            assert(online@ =~= online_status());
            let mut digits: Vec<char> = Vec::new();
            append_u64(&mut digits, quick_hash);
            assert(digits@ =~= decimal(quick_hash as nat));
            ResolvedFileState {
                status: string_of(&online),
                quick_hash: string_of(&digits),
                mtime,
                file_size,
            }
        },
        _ => {
            let offline = vec!['o', 'f', 'f', 'l', 'i', 'n', 'e'];
            assert(offline@ =~= offline_status());
            ResolvedFileState {
                status: string_of(&offline),
                quick_hash: String::new(),
                mtime: 0,
                file_size: 0,
            }
        },
    }
}

fn append_u64(v: &mut Vec<char>, n: u64)
    ensures
        final(v)@ == old(v)@ + decimal(n as nat),
    decreases n,
{
    if n >= 10 {
        append_u64(v, n / 10);
    }
    let d: u8 = (n % 10) as u8;
    let c: char = (d + 48u8) as char;
    assert(c == crate::text::digit_char((n % 10) as nat));
    v.push(c);
    assert(final(v)@ =~= old(v)@ + decimal(n as nat));
}

/// An offline row whose legacy thumbnail may be linked after the import.
pub struct LegacyThumbnailLink {
    pub video_id: String,
    pub thumbnail_hash: String,
    pub file_path: String,
}

/// Running totals of the row-import pass.
pub struct ImportTally {
    pub registered: u32,
    pub skipped: u32,
    pub tags_assigned: u32,
    /// Inserted offline rows that carry a thumbnail hash, in row order.
    pub offline_links: Vec<LegacyThumbnailLink>,
}

impl ImportTally {
 /// Nothing imported yet.
    pub fn new() -> (t: ImportTally)
        ensures
            t.registered == 0,
            t.skipped == 0,
            t.tags_assigned == 0,
            t.offline_links@.len() == 0,
    {
        ImportTally { registered: 0, skipped: 0, tags_assigned: 0, offline_links: Vec::new() }
    }

    /// Adds one imported row. An inserted row counts as registered with its
    /// tag assignments; if it was registered offline with a thumbnail hash,
    /// it is remembered for legacy-thumbnail linking (an online row gets a
    /// thumbnail generated from its real file instead). A skipped row only
    /// counts as skipped.
    pub fn record(
        &mut self,
        outcome: &WbImportOutcome,
        registered_offline: bool,
        video_id: String,
        thumbnail_hash: Option<String>,
        file_path: String,
    )
        ensures
            match *outcome {
                WbImportOutcome::Inserted { tags_assigned } => {
                    &&& final(self).registered == old(self).registered.wrapping_add(1)
                    &&& final(self).skipped == old(self).skipped
                    &&& final(self).tags_assigned == old(self).tags_assigned.wrapping_add(
                        tags_assigned as u32,
                    )
                    &&& if registered_offline && thumbnail_hash is Some {
                        final(self).offline_links@.len() == old(self).offline_links@.len() + 1
                            && final(self).offline_links@.drop_last() == old(self).offline_links@
                            && final(self).offline_links@.last() == (LegacyThumbnailLink {
                            video_id,
                            thumbnail_hash: thumbnail_hash->0,
                            file_path,
                        })
                    } else {
                        final(self).offline_links@ == old(self).offline_links@
                    }
                },
                WbImportOutcome::Skipped => {
                    &&& final(self).registered == old(self).registered
                    &&& final(self).skipped == old(self).skipped.wrapping_add(1)
                    &&& final(self).tags_assigned == old(self).tags_assigned
                    &&& final(self).offline_links@ == old(self).offline_links@
                },
            },
    {
        match outcome {
            WbImportOutcome::Inserted { tags_assigned } => {
                self.registered = self.registered.wrapping_add(1);
                self.tags_assigned = self.tags_assigned.wrapping_add(*tags_assigned as u32);
                if registered_offline {
                    match thumbnail_hash {
                        Some(hash) => {
                            self.offline_links.push(
                                LegacyThumbnailLink { video_id, thumbnail_hash: hash, file_path },
                            );
                            assert(self.offline_links@.drop_last() =~= old(self).offline_links@);
                        },
                        None => {},
                    }
                }
            },
            WbImportOutcome::Skipped => {
                self.skipped = self.skipped.wrapping_add(1);
            },
        }
    }
}

/// How linking one matched legacy thumbnail ended.
#[derive(Clone, Copy, Debug, PartialEq, Eq, Structural)]
pub enum LinkResult {
    /// Converted to WebP and copied into every slot.
    Linked,
    /// Conversion, directory creation or a slot copy failed.
    Failed,
}

/// How many of `results` are `which`.
pub open spec fn count_results(results: Seq<LinkResult>, which: LinkResult) -> nat
    decreases results.len(),
{
    if results.len() == 0 {
        0
    } else {
        count_results(results.drop_last(), which) + if results.last() == which { 1nat } else { 0nat }
    }
}

/// Progress of copying one converted legacy thumbnail into a video's slot
/// files: slot by slot in order, stopping at the first copy that fails.
#[derive(Clone, Copy, Debug, PartialEq, Eq, Structural)]
pub struct SlotCopyProgress {
    /// Slots copied so far.
    pub copied: usize,
    /// Whether a copy failed.
    pub failed: bool,
}

/// Nothing copied yet.
pub open spec fn fresh_slot_copy() -> SlotCopyProgress {
    SlotCopyProgress { copied: 0, failed: false }
}

/// The slot to copy next: none after a failure or once every slot is done.
pub open spec fn next_slot_copy(p: SlotCopyProgress) -> Option<usize> {
    if !p.failed && p.copied < THUMBNAILS_PER_VIDEO {
        Some(p.copied)
    } else {
        None
    }
}

/// After copying the next slot succeeded (`ok`) or failed.
pub open spec fn after_slot_copy(p: SlotCopyProgress, ok: bool) -> SlotCopyProgress {
    if ok {
        SlotCopyProgress { copied: (p.copied + 1) as usize, failed: false }
    } else {
        SlotCopyProgress { copied: p.copied, failed: true }
    }
}

/// After the given copy results, in order.
pub open spec fn after_slot_copies(p: SlotCopyProgress, oks: Seq<bool>) -> SlotCopyProgress
    decreases oks.len(),
{
    if oks.len() == 0 {
        p
    } else {
        after_slot_copy(after_slot_copies(p, oks.drop_last()), oks.last())
    }
}

impl SlotCopyProgress {
    pub fn new() -> (r: SlotCopyProgress)
        ensures
            r == fresh_slot_copy(),
    {
        SlotCopyProgress { copied: 0, failed: false }
    }

    /// The slot to copy next, if any.
    pub fn next_slot(&self) -> (r: Option<usize>)
        ensures
            r == next_slot_copy(*self),
    {
        if !self.failed && self.copied < THUMBNAILS_PER_VIDEO {
            Some(self.copied)
        } else {
            None
        }
    }

    /// Records whether copying the slot `next_slot` named succeeded.
    pub fn record_copy(&mut self, ok: bool)
        requires
            next_slot_copy(*old(self)) is Some,
        ensures
            *final(self) == after_slot_copy(*old(self), ok),
    {
        if ok {
            self.copied = self.copied + 1;
        } else {
            self.failed = true;
        }
    }

    /// How linking ended once no slot is left to copy, and whether every
    /// slot file is to be removed: `Linked` with nothing removed when all
    /// were copied; `Failed` with all of them removed after a failed copy.
    pub fn finish(&self) -> (r: (LinkResult, bool))
        requires
            next_slot_copy(*self) is None,
        ensures
            r == (if self.failed {
                (LinkResult::Failed, true)
            } else {
                (LinkResult::Linked, false)
            }),
    {
        if self.failed {
            (LinkResult::Failed, true)
        } else {
            (LinkResult::Linked, false)
        }
    }
}

/// Copying stops at the first failure: when every copy before the last of
/// `oks` succeeded, the slots are offered in order; after all
/// `THUMBNAILS_PER_VIDEO` succeed the link is done, and a failed copy ends
/// it at once, with the copies before it counted.
pub proof fn lemma_slot_copies_stop_at_first_failure(oks: Seq<bool>)
    requires
        oks.len() <= THUMBNAILS_PER_VIDEO,
        forall|i: int| 0 <= i < oks.len() - 1 ==> #[trigger] oks[i],
    ensures
        forall|k: int|
            0 <= k < oks.len() ==> next_slot_copy(
                #[trigger] after_slot_copies(fresh_slot_copy(), oks.take(k)),
            ) == Some(k as usize),
        oks.len() > 0 && !oks.last() ==> after_slot_copies(fresh_slot_copy(), oks) == (SlotCopyProgress {
            copied: (oks.len() - 1) as usize,
            failed: true,
        }) && next_slot_copy(after_slot_copies(fresh_slot_copy(), oks)) is None,
        (oks.len() == 0 || oks.last()) ==> after_slot_copies(fresh_slot_copy(), oks) == (
        SlotCopyProgress { copied: oks.len() as usize, failed: false }),
        oks.len() == THUMBNAILS_PER_VIDEO && oks.last() ==> next_slot_copy(
            after_slot_copies(fresh_slot_copy(), oks),
        ) is None,
{
    lemma_slot_copies_succeeded(oks);
    assert forall|k: int| 0 <= k < oks.len() implies next_slot_copy(
        #[trigger] after_slot_copies(fresh_slot_copy(), oks.take(k)),
    ) == Some(k as usize) by {
        assert forall|i: int| 0 <= i < oks.take(k).len() implies #[trigger] oks.take(k)[i] by {
            assert(oks.take(k)[i] == oks[i]);
        }
        lemma_slot_copies_succeeded_all(oks.take(k));
    }
}

proof fn lemma_slot_copies_succeeded_all(oks: Seq<bool>)
    requires
        oks.len() <= THUMBNAILS_PER_VIDEO,
        forall|i: int| 0 <= i < oks.len() ==> #[trigger] oks[i],
    ensures
        after_slot_copies(fresh_slot_copy(), oks) == (SlotCopyProgress {
            copied: oks.len() as usize,
            failed: false,
        }),
    decreases oks.len(),
{
    if oks.len() > 0 {
        let init = oks.drop_last();
        assert forall|i: int| 0 <= i < init.len() implies #[trigger] init[i] by {
            assert(init[i] == oks[i]);
        }
        lemma_slot_copies_succeeded_all(init);
        assert(oks.last() == oks[oks.len() - 1]);
    }
}

proof fn lemma_slot_copies_succeeded(oks: Seq<bool>)
    requires
        oks.len() <= THUMBNAILS_PER_VIDEO,
        forall|i: int| 0 <= i < oks.len() - 1 ==> #[trigger] oks[i],
    ensures
        oks.len() > 0 ==> after_slot_copies(fresh_slot_copy(), oks.drop_last()) == (SlotCopyProgress {
            copied: (oks.len() - 1) as usize,
            failed: false,
        }),
{
    if oks.len() > 0 {
        let init = oks.drop_last();
        assert forall|i: int| 0 <= i < init.len() implies #[trigger] init[i] by {
            assert(init[i] == oks[i]);
        }
        lemma_slot_copies_succeeded_all(init);
    }
}

/// A notice an import run sends when it ends.
#[derive(Clone, Copy, Debug, PartialEq, Eq, Structural)]
pub enum ImportNotice {
    /// The import failed (the movie rows could not be read).
    Failed,
    /// The import finished; its summary goes with it.
    Complete,
    /// The catalog changed.
    CatalogChanged,
}

/// The notices that end an import run, in order: only the failure when
/// the movie rows could not be read; otherwise the completion, then one
/// catalog change.
pub fn import_end_notices(rows_read: bool) -> (r: Vec<ImportNotice>)
    ensures
        r@ == (if rows_read {
            seq![ImportNotice::Complete, ImportNotice::CatalogChanged]
        } else {
            seq![ImportNotice::Failed]
        }),
{
    let mut r: Vec<ImportNotice> = Vec::new();
    if rows_read {
        r.push(ImportNotice::Complete);
        r.push(ImportNotice::CatalogChanged);
    } else {
        r.push(ImportNotice::Failed);
    }
    assert(r@ =~= (if rows_read {
        seq![ImportNotice::Complete, ImportNotice::CatalogChanged]
    } else {
        seq![ImportNotice::Failed]
    }));
    r
}

/// Linked and failed counts over the matched thumbnails.
pub fn count_link_results(results: &Vec<LinkResult>) -> (r: (u32, u32))
    requires
        results.len() <= u32::MAX,
    ensures
        r.0 == count_results(results@, LinkResult::Linked),
        r.1 == count_results(results@, LinkResult::Failed),
{
    let mut linked: u32 = 0;
    let mut failed: u32 = 0;
    let mut i: usize = 0;
    while i < results.len()
        invariant
            results.len() <= u32::MAX,
            i <= results.len(),
            linked == count_results(results@.subrange(0, i as int), LinkResult::Linked),
            failed == count_results(results@.subrange(0, i as int), LinkResult::Failed),
            linked + failed == i,
        decreases results.len() - i,
    {
        assert(results@.subrange(0, i + 1).drop_last() =~= results@.subrange(0, i as int));
        match results[i] {
            LinkResult::Linked => linked = linked + 1,
            LinkResult::Failed => failed = failed + 1,
        }
        i = i + 1;
    }
    assert(results@.subrange(0, i as int) =~= results@);
    (linked, failed)
}

/// The final tally of an import.
pub fn import_summary(
    tally: &ImportTally,
    clamped_scores: u32,
    source_tag_count: u32,
    thumbnails_linked: u32,
    thumbnails_failed: u32,
    thumbnails_unmatched: u32,
) -> (s: WbImportSummary)
    ensures
        s == (WbImportSummary {
            registered: tally.registered,
            skipped: tally.skipped,
            clamped_scores,
            tags_assigned: tally.tags_assigned,
            source_tag_count,
            thumbnails_linked,
            thumbnails_failed,
            thumbnails_unmatched,
        }),
{
    WbImportSummary {
        registered: tally.registered,
        skipped: tally.skipped,
        clamped_scores,
        tags_assigned: tally.tags_assigned,
        source_tag_count,
        thumbnails_linked,
        thumbnails_failed,
        thumbnails_unmatched,
    }
}

/// The shared temporary file a legacy thumbnail is converted into before
/// being copied into each slot: `<video_id>.wb_legacy.webp.tmp`.
pub fn legacy_tmp_file_name(video_id: &str) -> (r: String)
    ensures
        r@ == video_id@ + ".wb_legacy.webp.tmp"@,
{
    let mut v = chars_of(video_id);
    proof {
        reveal_strlit(".wb_legacy.webp.tmp");
    }
    append_str(&mut v, ".wb_legacy.webp.tmp");
    string_of(&v)
}

/// The outcome of importing one row, from how many `videos` rows its insert
/// created and how many tag assignments followed.
pub fn wb_import_outcome(inserted_rows: usize, tags_assigned: usize) -> (o: WbImportOutcome)
    ensures
        inserted_rows == 0 ==> o == WbImportOutcome::Skipped,
        inserted_rows != 0 ==> o == (WbImportOutcome::Inserted { tags_assigned }),
{
    if inserted_rows == 0 {
        WbImportOutcome::Skipped
    } else {
        WbImportOutcome::Inserted { tags_assigned }
    }
}

/// Index of the first key equal to `key`.
pub open spec fn first_match(keys: Seq<String>, key: Seq<char>) -> Option<int>
    decreases keys.len(),
{
    if keys.len() == 0 {
        None
    } else {
        match first_match(keys.drop_last(), key) {
            Some(i) => Some(i),
            None => if keys.last()@ == key {
                Some(keys.len() - 1)
            } else {
                None
            },
        }
    }
}

proof fn lemma_first_match(keys: Seq<String>, key: Seq<char>)
    ensures
        first_match(keys, key) matches Some(i) ==> 0 <= i < keys.len() && keys[i]@ == key && forall|
            j: int,
        | 0 <= j < i ==> #[trigger] keys[j]@ != key,
        first_match(keys, key) is None ==> forall|j: int| 0 <= j < keys.len() ==> #[trigger] keys[j]@ != key,
    decreases keys.len(),
{
    if keys.len() > 0 {
        let prev = keys.drop_last();
        lemma_first_match(prev, key);
        match first_match(prev, key) {
            Some(i) => {
                assert(keys[i] == prev[i]);
                assert forall|j: int| 0 <= j < i implies #[trigger] keys[j]@ != key by {
                    assert(keys[j] == prev[j]);
                }
            },
            None => {
                if keys.last()@ == key {
                    assert forall|j: int| 0 <= j < keys.len() - 1 implies #[trigger] keys[j]@ != key by {
                        assert(keys[j] == prev[j]);
                    }
                } else {
                    assert forall|j: int| 0 <= j < keys.len() implies #[trigger] keys[j]@ != key by {
                        if j < keys.len() - 1 {
                            assert(keys[j] == prev[j]);
                        }
                    }
                }
            },
        }
    }
}

/// The existing tag a `.wb` tag folds onto: the first (in table order) whose
/// merge key equals the `.wb` tag's; `None` means a new tag is created.
pub fn find_tag_by_merge_key(existing_keys: &Vec<String>, key: &str) -> (r: Option<usize>)
    ensures
        match r {
            Some(i) => first_match(existing_keys@, key@) == Some(i as int),
            None => first_match(existing_keys@, key@) is None,
        },
        r matches Some(i) ==> i < existing_keys.len() && existing_keys[i as int]@ == key@ && forall|
            j: int,
        | 0 <= j < i ==> #[trigger] existing_keys[j]@ != key@,
        r is None ==> forall|j: int| 0 <= j < existing_keys.len() ==> #[trigger] existing_keys[j]@ != key@,
{
    let target = chars_of(key);
    let mut i: usize = 0;
    while i < existing_keys.len()
        invariant
            i <= existing_keys.len(),
            target@ == key@,
            first_match(existing_keys@.subrange(0, i as int), key@) is None,
        decreases existing_keys.len() - i,
    {
        let k = chars_of(existing_keys[i].as_str());
        assert(existing_keys@.subrange(0, i + 1).drop_last() =~= existing_keys@.subrange(0, i as int));
        if vec_eq(&k, &target) {
            proof {
                lemma_first_match(existing_keys@.subrange(0, i + 1), key@);
                lemma_first_match_prefix(existing_keys@, key@, i + 1);
                lemma_first_match(existing_keys@, key@);
            }
            return Some(i);
        }
        i = i + 1;
    }
    assert(existing_keys@.subrange(0, i as int) =~= existing_keys@);
    proof {
        lemma_first_match(existing_keys@, key@);
    }
    None
}

/// A match found in a prefix is the match of the whole sequence.
proof fn lemma_first_match_prefix(keys: Seq<String>, key: Seq<char>, n: int)
    requires
        0 <= n <= keys.len(),
        first_match(keys.subrange(0, n), key) is Some,
    ensures
        first_match(keys, key) == first_match(keys.subrange(0, n), key),
    decreases keys.len() - n,
{
    if n < keys.len() {
        assert(keys.subrange(0, n + 1).drop_last() =~= keys.subrange(0, n));
        lemma_first_match_prefix(keys, key, n + 1);
    } else {
        assert(keys.subrange(0, n) =~= keys);
    }
}


/// An ASCII letter, an ASCII digit or `_`.
pub open spec fn is_identifier_char(c: char) -> bool {
    crate::text::is_ascii_alpha(c) || crate::text::is_ascii_digit(c) || c == '_'
}

/// Whether `name` may be spliced into the dynamically built `.wb`
/// inspection queries as an identifier: non-empty and made only of ASCII
/// letters, ASCII digits and `_`.
pub open spec fn safe_identifier(name: Seq<char>) -> bool {
    name.len() > 0 && forall|i: int| 0 <= i < name.len() ==> is_identifier_char(#[trigger] name[i])
}

/// Whether `name` is a safe identifier.
pub fn is_safe_identifier(name: &str) -> (b: bool)
    ensures
        b == safe_identifier(name@),
{
    let v = chars_of(name);
    if v.len() == 0 {
        return false;
    }
    let mut i: usize = 0;
    while i < v.len()
        invariant
            i <= v.len(),
            v@ == name@,
            forall|j: int| 0 <= j < i ==> is_identifier_char(#[trigger] v@[j]),
        decreases v.len() - i,
    {
        let c = v[i];
        let ok = ('a' <= c && c <= 'z') || ('A' <= c && c <= 'Z') || ('0' <= c && c <= '9') || c == '_';
        if !ok {
            assert(!is_identifier_char(name@[i as int]));
            return false;
        }
        i = i + 1;
    }
    true
}

/// The names that are safe identifiers, in order.
pub open spec fn safe_only(names: Seq<String>) -> Seq<String>
    decreases names.len(),
{
    if names.len() == 0 {
        Seq::empty()
    } else if safe_identifier(names.last()@) {
        safe_only(names.drop_last()).push(names.last())
    } else {
        safe_only(names.drop_last())
    }
}

/// The table names a `.wb` file declares that are safe to splice into a
/// query, in order.
pub fn safe_table_names(names: Vec<String>) -> (r: Vec<String>)
    ensures
        r@ == safe_only(names@),
{
    let mut r: Vec<String> = Vec::new();
    let mut i: usize = 0;
    while i < names.len()
        invariant
            i <= names.len(),
            r@ == safe_only(names@.subrange(0, i as int)),
        decreases names.len() - i,
    {
        assert(names@.subrange(0, i + 1).drop_last() =~= names@.subrange(0, i as int));
        if is_safe_identifier(names[i].as_str()) {
            r.push(names[i].clone());
        }
        i = i + 1;
    }
    assert(names@.subrange(0, i as int) =~= names@);
    r
}
} // verus!
