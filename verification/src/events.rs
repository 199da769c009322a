//! Notifications the catalog sends to the user interface: "the video list
//! may have changed", `.wb` import progress and outcome, and a refreshed set
//! of duplicate groups. The real senders live with the desktop shell; the
//! recording implementations here let the decision logic be exercised and
//! checked without one.

use vstd::prelude::*;
use crate::dedup::DuplicateGroup;

verus! {

/// Tells the user interface that the video list may have changed.
pub trait CatalogNotifier {
    fn notify_changed(&mut self);
}

/// Final tally of a `.wb` import.
#[derive(Debug, Clone, Copy, Default, PartialEq, Eq, Structural)]
pub struct WbImportSummary {
    /// New `videos` rows created.
    pub registered: u32,
    /// `.wb` rows whose path was already registered.
    pub skipped: u32,
    /// `.wb` rows whose score exceeded 5 and was clamped.
    pub clamped_scores: u32,
    /// Tag assignments written across every inserted row.
    pub tags_assigned: u32,
    /// Tags present in the raw `.wb` data across every row.
    pub source_tag_count: u32,
    /// Offline rows whose legacy thumbnail was converted and linked.
    pub thumbnails_linked: u32,
    /// Offline rows whose matched legacy thumbnail failed to convert or copy.
    pub thumbnails_failed: u32,
    /// Legacy thumbnail files that matched no offline row.
    pub thumbnails_unmatched: u32,
}

/// Progress and outcome of a `.wb` import.
pub trait WbImportNotifier {
    /// `processed` of `total` movie rows imported so far.
    fn notify_progress(&mut self, processed: u32, total: u32);

    /// Sent once, after the row import and thumbnail linking finished.
    fn notify_complete(&mut self, summary: &WbImportSummary);

    /// Sent instead of `notify_complete` when the import could not start
    /// (the `.wb` movie rows could not be read).
    fn notify_failed(&mut self, reason: &str);
}

/// Carries a freshly detected set of duplicate groups.
pub trait DedupNotifier {
    fn notify_updated(&mut self, groups: &[DuplicateGroup]);
}

/// Counts `notify_changed` calls.
pub struct FakeCatalogNotifier {
    pub call_count: usize,
}

impl FakeCatalogNotifier {
 /// A notifier that has not been called yet.
    pub fn new() -> (n: FakeCatalogNotifier)
        ensures
            n.call_count == 0,
            n.call_count == count_after_calls(0),
    {
        FakeCatalogNotifier { call_count: 0 }
    }

    /// How many times `notify_changed` has been called.
    pub fn calls(&self) -> (r: usize)
        ensures
            r == self.call_count,
    {
        self.call_count
    }
}

impl CatalogNotifier for FakeCatalogNotifier {
    fn notify_changed(&mut self)
        ensures
            final(self).call_count == old(self).call_count.wrapping_add(1),
            old(self).call_count < usize::MAX ==> final(self).call_count == old(self).call_count + 1,
            forall|k: nat|
                old(self).call_count == #[trigger] count_after_calls(k) ==> final(self).call_count
                    == count_after_calls(k + 1),
    {
        self.call_count = self.call_count.wrapping_add(1);
    }
}

/// The count a new notifier holds after `k` calls of `notify_changed`: it
/// starts at 0 and each call takes it to `count.wrapping_add(1)`.
pub open spec fn count_after_calls(k: nat) -> usize
    decreases k,
{
    if k == 0 {
        0
    } else {
        count_after_calls((k - 1) as nat).wrapping_add(1)
    }
}

/// After `k` calls of `notify_changed` on a new notifier, `calls()` reads
/// exactly `k`, for every `k` that a `usize` can hold.
pub proof fn lemma_calls_counts_every_call(k: nat)
    requires
        k <= usize::MAX,
    ensures
        count_after_calls(k) == k,
    decreases k,
{
    if k > 0 {
        lemma_calls_counts_every_call((k - 1) as nat);
    }
}

/// Records every import notification, in order.
pub struct FakeWbImportNotifier {
    pub progress_calls: Vec<(u32, u32)>,
    pub complete_calls: Vec<WbImportSummary>,
    pub failed_calls: Vec<String>,
}

impl FakeWbImportNotifier {
 /// A notifier with nothing recorded yet.
    pub fn new() -> (n: FakeWbImportNotifier)
        ensures
            n.progress_calls@.len() == 0,
            n.complete_calls@.len() == 0,
            n.failed_calls@.len() == 0,
    {
        FakeWbImportNotifier {
            progress_calls: Vec::new(),
            complete_calls: Vec::new(),
            failed_calls: Vec::new(),
        }
    }
}

impl WbImportNotifier for FakeWbImportNotifier {
    fn notify_progress(&mut self, processed: u32, total: u32)
        ensures
            final(self).progress_calls@ == old(self).progress_calls@.push((processed, total)),
            final(self).complete_calls@ == old(self).complete_calls@,
            final(self).failed_calls@ == old(self).failed_calls@,
    {
        self.progress_calls.push((processed, total));
    }

    fn notify_complete(&mut self, summary: &WbImportSummary)
        ensures
            final(self).progress_calls@ == old(self).progress_calls@,
            final(self).complete_calls@ == old(self).complete_calls@.push(*summary),
            final(self).failed_calls@ == old(self).failed_calls@,
    {
        self.complete_calls.push(*summary);
    }

    fn notify_failed(&mut self, reason: &str)
        ensures
            final(self).progress_calls@ == old(self).progress_calls@,
            final(self).complete_calls@ == old(self).complete_calls@,
            final(self).failed_calls@.len() == old(self).failed_calls@.len() + 1,
            final(self).failed_calls@.last()@ == reason@,
            forall|i: int|
                0 <= i < old(self).failed_calls@.len() ==> #[trigger] final(self).failed_calls@[i]
                    == old(self).failed_calls@[i],
    {
        self.failed_calls.push(String::from_str(reason));
    }
}

/// Records the group count of every `notify_updated` call, in order.
pub struct FakeDedupNotifier {
    pub updated_calls: Vec<usize>,
}

impl FakeDedupNotifier {
 /// A notifier with nothing recorded yet.
    pub fn new() -> (n: FakeDedupNotifier)
        ensures
            n.updated_calls@.len() == 0,
    {
        FakeDedupNotifier { updated_calls: Vec::new() }
    }
}

impl DedupNotifier for FakeDedupNotifier {
    fn notify_updated(&mut self, groups: &[DuplicateGroup])
        ensures
            final(self).updated_calls@ == old(self).updated_calls@.push(groups@.len() as usize),
    {
        self.updated_calls.push(groups.len());
    }
}

} // verus!
