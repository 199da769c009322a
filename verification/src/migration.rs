//! One-time startup migrations: moving flat-layout thumbnails
//! (`thumbnails/<video_id>_<slot>.webp`) into per-folder subdirectories, and
//! moving data out of the doubly nested application folder older installs
//! created.

use vstd::prelude::*;
use crate::thumbnail_paths::{flat_thumbnail_parts, parse_flat_thumbnail_file_name};

verus! {

/// Totals of a flat-thumbnail migration.
#[derive(Clone, Copy, Debug, Default, PartialEq, Eq, Structural)]
pub struct MigrationSummary {
    pub videos_migrated: u32,
    pub videos_failed: u32,
}

impl MigrationSummary {
 /// No video counted yet.
    pub fn new() -> (s: MigrationSummary)
        ensures
            s.videos_migrated == 0,
            s.videos_failed == 0,
    {
        MigrationSummary { videos_migrated: 0, videos_failed: 0 }
    }

    /// Counts one video: migrated when every one of its leftover files was
    /// moved, failed otherwise (including an unknown video id or a
    /// destination directory that could not be created).
    pub fn record_video(&mut self, all_moved: bool)
        ensures
            all_moved ==> final(self).videos_migrated == old(self).videos_migrated.wrapping_add(1)
                && final(self).videos_failed == old(self).videos_failed,
            !all_moved ==> final(self).videos_failed == old(self).videos_failed.wrapping_add(1)
                && final(self).videos_migrated == old(self).videos_migrated,
    {
        if all_moved {
            self.videos_migrated = self.videos_migrated.wrapping_add(1);
        } else {
            self.videos_failed = self.videos_failed.wrapping_add(1);
        }
    }
}

/// A leftover flat-layout thumbnail file.
pub struct FlatThumbnailEntry {
    pub video_id: String,
    pub slot: usize,
    pub file_name: String,
}

/// An entry as `(video_id, slot, file_name)`.
pub open spec fn entry_view(e: FlatThumbnailEntry) -> (Seq<char>, nat, Seq<char>) {
    (e.video_id@, e.slot as nat, e.file_name@)
}

/// The flat-layout thumbnails among top-level file names, in order: every
/// name that parses as `<video_id>_<slot>.webp`, with its parts.
pub open spec fn flat_entries(names: Seq<String>) -> Seq<(Seq<char>, nat, Seq<char>)>
    decreases names.len(),
{
    if names.len() == 0 {
        Seq::empty()
    } else {
        let rest = flat_entries(names.drop_last());
        match flat_thumbnail_parts(names.last()@) {
            Some((id, slot)) => rest.push((id, slot, names.last()@)),
            None => rest,
        }
    }
}

/// Picks the leftover flat-layout thumbnails out of the files found directly
/// under the thumbnails root (directories are the already migrated layout
/// and are never passed in).
pub fn flat_thumbnail_entries(file_names: &Vec<String>) -> (r: Vec<FlatThumbnailEntry>)
    ensures
        r@.map_values(|e: FlatThumbnailEntry| entry_view(e)) == flat_entries(file_names@),
{
    let mut r: Vec<FlatThumbnailEntry> = Vec::new();
    let mut i: usize = 0;
    while i < file_names.len()
        invariant
            i <= file_names.len(),
            r@.map_values(|e: FlatThumbnailEntry| entry_view(e)) == flat_entries(
                file_names@.subrange(0, i as int),
            ),
        decreases file_names.len() - i,
    {
        assert(file_names@.subrange(0, i + 1).drop_last() =~= file_names@.subrange(0, i as int));
        let ghost before = r@;
        match parse_flat_thumbnail_file_name(file_names[i].as_str()) {
            Some((video_id, slot)) => {
                r.push(FlatThumbnailEntry { video_id, slot, file_name: file_names[i].clone() });
                assert(r@.map_values(|e: FlatThumbnailEntry| entry_view(e)) =~= before.map_values(
                    |e: FlatThumbnailEntry| entry_view(e),
                ).push(entry_view(r@.last())));
            },
            None => {},
        }
        i = i + 1;
    }
    assert(file_names@.subrange(0, i as int) =~= file_names@);
    r
}

/// The database file names that must move together and never be skipped.
pub open spec fn is_db_file(name: Seq<char>) -> bool {
    name == "app.db"@ || name == "app.db-wal"@ || name == "app.db-shm"@
}

/// Whether `file_name` is one of the database files.
pub fn is_db_file_name(file_name: &str) -> (b: bool)
    ensures
        b == is_db_file(file_name@),
{
    proof {
        reveal_strlit("app.db");
        reveal_strlit("app.db-wal");
        reveal_strlit("app.db-shm");
    }
    let name = crate::text::chars_of(file_name);
    let db = crate::text::chars_of("app.db");
    let wal = crate::text::chars_of("app.db-wal");
    let shm = crate::text::chars_of("app.db-shm");
    crate::text::vec_eq(&name, &db) || crate::text::vec_eq(&name, &wal) || crate::text::vec_eq(
        &name,
        &shm,
    )
}

/// The legacy nested folder is migrated only when the new location has no
/// database yet and the nested one has: a fresh install and an already
/// migrated one are both left alone.
pub fn should_migrate_legacy_app_dir(new_db_exists: bool, old_db_exists: bool) -> (b: bool)
    ensures
        b == (!new_db_exists && old_db_exists),
{
    !new_db_exists && old_db_exists
}

/// What to do with one non-database entry of the legacy folder.
#[derive(Clone, Copy, Debug, PartialEq, Eq, Structural)]
pub enum LegacyEntryAction {
    /// A database file: moved separately, where failure must abort startup.
    LeaveForDatabaseMove,
    /// Nothing of that name at the destination: rename it there.
    Move,
    /// A directory meeting an existing directory: merge entry by entry.
    MergeInto,
    /// A file of that name already exists there: already migrated.
    Skip,
}

/// Where one entry of the legacy folder goes: database files are left for
/// their own move, an entry with no namesake at the destination is moved,
/// a directory meeting a directory is merged, anything else is skipped.
pub fn legacy_entry_action(
    file_name: &str,
    dest_exists: bool,
    dest_is_dir: bool,
    entry_is_dir: bool,
) -> (a: LegacyEntryAction)
    ensures
        a == (if is_db_file(file_name@) {
            LegacyEntryAction::LeaveForDatabaseMove
        } else if !dest_exists {
            LegacyEntryAction::Move
        } else if dest_is_dir && entry_is_dir {
            LegacyEntryAction::MergeInto
        } else {
            LegacyEntryAction::Skip
        }),
{
    if is_db_file_name(file_name) {
        LegacyEntryAction::LeaveForDatabaseMove
    } else if !dest_exists {
        LegacyEntryAction::Move
    } else if dest_is_dir && entry_is_dir {
        LegacyEntryAction::MergeInto
    } else {
        LegacyEntryAction::Skip
    }
}


/// The video ids of `entries`, each once, in order of first appearance.
pub open spec fn distinct_ids(entries: Seq<FlatThumbnailEntry>) -> Seq<Seq<char>>
    decreases entries.len(),
{
    if entries.len() == 0 {
        Seq::empty()
    } else {
        let rest = distinct_ids(entries.drop_last());
        if rest.contains(entries.last().video_id@) {
            rest
        } else {
            rest.push(entries.last().video_id@)
        }
    }
}

/// The `(slot, file_name)` of every entry of video `id`, in order.
pub open spec fn files_of(entries: Seq<FlatThumbnailEntry>, id: Seq<char>) -> Seq<(nat, Seq<char>)>
    decreases entries.len(),
{
    if entries.len() == 0 {
        Seq::empty()
    } else {
        let rest = files_of(entries.drop_last(), id);
        let e = entries.last();
        if e.video_id@ == id {
            rest.push((e.slot as nat, e.file_name@))
        } else {
            rest
        }
    }
}

/// The leftover files of one video.
pub struct FlatThumbnailGroup {
    pub video_id: String,
    /// `(slot, file_name)` of each of its files, in listing order.
    pub files: Vec<(usize, String)>,
}

/// Files as `(slot, file_name)`.
pub open spec fn files_view(files: Seq<(usize, String)>) -> Seq<(nat, Seq<char>)> {
    files.map_values(|f: (usize, String)| (f.0 as nat, f.1@))
}

proof fn lemma_distinct_ids_unique(entries: Seq<FlatThumbnailEntry>)
    ensures
        distinct_ids(entries).no_duplicates(),
        forall|i: int| 0 <= i < entries.len() ==> distinct_ids(entries).contains(#[trigger] entries[i].video_id@),
        forall|k: int| 0 <= k < distinct_ids(entries).len() ==> exists|i: int| 0 <= i < entries.len() && #[trigger] distinct_ids(entries)[k] == entries[i].video_id@,
    decreases entries.len(),
{
    if entries.len() > 0 {
        let prev = entries.drop_last();
        lemma_distinct_ids_unique(prev);
        let rest = distinct_ids(prev);
        let id = entries.last().video_id@;
        assert forall|i: int| 0 <= i < entries.len() implies distinct_ids(entries).contains(#[trigger] entries[i].video_id@) by {
            if i < entries.len() - 1 {
                assert(entries[i] == prev[i]);
                assert(rest.contains(prev[i].video_id@));
                if !rest.contains(id) {
                    let k = choose|k: int| 0 <= k < rest.len() && rest[k] == prev[i].video_id@;
                    assert(rest.push(id)[k] == prev[i].video_id@);
                }
            } else {
                if !rest.contains(id) {
                    assert(rest.push(id)[rest.len() as int] == id);
                }
            }
        }
        assert forall|k: int| 0 <= k < distinct_ids(entries).len() implies exists|i: int| 0 <= i < entries.len() && #[trigger] distinct_ids(entries)[k] == entries[i].video_id@ by {
            if k < rest.len() {
                let i = choose|i: int| 0 <= i < prev.len() && #[trigger] rest[k] == prev[i].video_id@;
                assert(entries[i] == prev[i]);
                if !rest.contains(id) {
                    assert(rest.push(id)[k] == rest[k]);
                }
            } else {
                assert(distinct_ids(entries)[k] == entries[entries.len() - 1].video_id@);
            }
        }
    }
}

/// Groups the leftover flat-layout files by video: one group per video id
/// (each id once, in order of first appearance), holding exactly that
/// video's files in listing order. Every entry lands in the group of its
/// own video.
pub fn group_flat_entries(entries: &Vec<FlatThumbnailEntry>) -> (groups: Vec<FlatThumbnailGroup>)
    ensures
        groups@.map_values(|g: FlatThumbnailGroup| g.video_id@) == distinct_ids(entries@),
        forall|k: int| 0 <= k < groups.len() ==> files_view(#[trigger] groups[k].files@) == files_of(entries@, groups[k].video_id@),
        forall|j: int, k: int| 0 <= j < k < groups.len() ==> groups[j].video_id@ != groups[k].video_id@,
        forall|i: int| #![trigger entries[i]] 0 <= i < entries.len() ==> exists|k: int| 0 <= k < groups.len() && #[trigger] groups[k].video_id@ == entries[i].video_id@,
{
    let ghost all = entries@;
    let mut ids: Vec<String> = Vec::new();
    let mut i: usize = 0;
    while i < entries.len()
        invariant
            i <= entries.len(),
            all == entries@,
            ids@.map_values(|s: String| s@) == distinct_ids(all.subrange(0, i as int)),
        decreases entries.len() - i,
    {
        let ghost prefix = all.subrange(0, i as int);
        assert(all.subrange(0, i + 1).drop_last() =~= prefix);
        assert(all.subrange(0, i + 1).last() == entries@[i as int]);
        let id_chars = crate::text::chars_of(entries[i].video_id.as_str());
        let mut seen = false;
        let mut k: usize = 0;
        while k < ids.len()
            invariant
                k <= ids.len(),
                id_chars@ == entries@[i as int].video_id@,
                seen <==> exists|m: int| 0 <= m < k && #[trigger] ids@[m]@ == id_chars@,
            decreases ids.len() - k,
        {
            let other = crate::text::chars_of(ids[k].as_str());
            if crate::text::vec_eq(&other, &id_chars) {
                seen = true;
            }
            k = k + 1;
        }
        let ghost rest = distinct_ids(prefix);
        let ghost idv = ids@.map_values(|s: String| s@);
        assert(seen <==> rest.contains(id_chars@)) by {
            if seen {
                let m = choose|m: int| 0 <= m < ids.len() && #[trigger] ids@[m]@ == id_chars@;
                assert(idv[m] == id_chars@);
            }
            if rest.contains(id_chars@) {
                let m = choose|m: int| 0 <= m < rest.len() && rest[m] == id_chars@;
                assert(ids@[m]@ == idv[m]);
            }
        }
        if !seen {
            ids.push(entries[i].video_id.clone());
            assert(ids@.map_values(|s: String| s@) =~= idv.push(id_chars@));
        }
        i = i + 1;
    }
    assert(all.subrange(0, entries.len() as int) =~= all);
    proof {
        lemma_distinct_ids_unique(all);
    }
    let ghost idv = ids@.map_values(|s: String| s@);
    let mut groups: Vec<FlatThumbnailGroup> = Vec::new();
    let mut g: usize = 0;
    while g < ids.len()
        invariant
            g <= ids.len(),
            all == entries@,
            idv == ids@.map_values(|s: String| s@),
            idv == distinct_ids(all),
            groups.len() == g,
            forall|k: int| 0 <= k < g ==> #[trigger] groups[k].video_id@ == idv[k],
            forall|k: int| 0 <= k < g ==> files_view(#[trigger] groups[k].files@) == files_of(all, groups[k].video_id@),
        decreases ids.len() - g,
    {
        let id_chars = crate::text::chars_of(ids[g].as_str());
        assert(id_chars@ == idv[g as int]);
        let mut files: Vec<(usize, String)> = Vec::new();
        let mut i: usize = 0;
        while i < entries.len()
            invariant
                i <= entries.len(),
                all == entries@,
                files_view(files@) == files_of(all.subrange(0, i as int), id_chars@),
            decreases entries.len() - i,
        {
            assert(all.subrange(0, i + 1).drop_last() =~= all.subrange(0, i as int));
            assert(all.subrange(0, i + 1).last() == entries@[i as int]);
            let e = &entries[i];
            let e_id = crate::text::chars_of(e.video_id.as_str());
            if crate::text::vec_eq(&e_id, &id_chars) {
                let ghost before = files@;
                files.push((e.slot, e.file_name.clone()));
                assert(files_view(files@) =~= files_view(before).push((e.slot as nat, e.file_name@)));
            }
            i = i + 1;
        }
        assert(all.subrange(0, entries.len() as int) =~= all);
        groups.push(FlatThumbnailGroup { video_id: ids[g].clone(), files });
        g = g + 1;
    }
    assert(groups@.map_values(|x: FlatThumbnailGroup| x.video_id@) =~= idv);
    assert forall|j: int, k: int| 0 <= j < k < groups.len() implies groups[j].video_id@ != groups[k].video_id@ by {
        assert(groups[j].video_id@ == idv[j]);
        assert(groups[k].video_id@ == idv[k]);
    }
    assert forall|i: int| #![trigger entries[i]] 0 <= i < entries.len() implies exists|k: int| 0 <= k < groups.len() && #[trigger] groups[k].video_id@ == entries[i].video_id@ by {
        assert(idv.contains(all[i].video_id@));
        let k = choose|k: int| 0 <= k < idv.len() && idv[k] == all[i].video_id@;
        assert(groups[k].video_id@ == idv[k]);
    }
    groups
}

} // verus!
