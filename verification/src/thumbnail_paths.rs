//! The on-disk layout of the cached thumbnails: every video has
//! `THUMBNAILS_PER_VIDEO` WebP slot files named `<video_id>_<slot>.webp`,
//! stored under `thumbnails/<folder-subdir>/`. This module owns that naming
//! convention (building slot paths, parsing a leftover flat-layout name back
//! into its video id and slot) and plans the file moves that follow a video
//! from one folder subdirectory to another.
//!
//! Paths are joined as `Path::join` joins them on Windows (see `win_path`).

use vstd::prelude::*;
use base64::Engine;
use crate::win_path::{joined, join_path, same_path, paths_equal};
use crate::text::{ends_with, decimal, parse_usize, is_ascii_digit, chars_of, string_of, append_str, append_decimal, vec_ends_with, sub_vec, parse_usize_chars, lemma_decimal_digits, lemma_parse_decimal};

verus! {

/// Number of thumbnail slot files kept per video.
pub const THUMBNAILS_PER_VIDEO: usize = 6;

/// `thumbnails`
pub open spec fn thumbnails_dir_name() -> Seq<char> {
    seq!['t', 'h', 'u', 'm', 'b', 'n', 'a', 'i', 'l', 's']
}

/// `.webp`
pub open spec fn webp_extension() -> Seq<char> {
    seq!['.', 'w', 'e', 'b', 'p']
}

/// `<video_id>_<slot>.webp`
pub open spec fn slot_file_name(video_id: Seq<char>, slot: nat) -> Seq<char> {
    video_id.push('_') + decimal(slot) + webp_extension()
}

/// Index of the last occurrence of `c` in `s`.
pub open spec fn last_index_of(s: Seq<char>, c: char) -> Option<int>
    decreases s.len(),
{
    if s.len() == 0 {
        None
    } else if s.last() == c {
        Some(s.len() - 1)
    } else {
        last_index_of(s.drop_last(), c)
    }
}

/// The `(video_id, slot)` a flat-layout thumbnail file name encodes: the name
/// must end in `.webp`; what precedes that is split at its last `_` into a
/// non-empty video id and a slot number (as `str::parse::<usize>` reads it)
/// below `THUMBNAILS_PER_VIDEO`.
pub open spec fn flat_thumbnail_parts(name: Seq<char>) -> Option<(Seq<char>, nat)> {
    if !ends_with(name, webp_extension()) {
        None
    } else {
        let stem = name.subrange(0, name.len() - 5);
        match last_index_of(stem, '_') {
            None => None,
            Some(k) => {
                let id = stem.subrange(0, k);
                match parse_usize(stem.subrange(k + 1, stem.len() as int)) {
                    Some(slot) => if id.len() > 0 && slot < THUMBNAILS_PER_VIDEO {
                        Some((id, slot))
                    } else {
                        None
                    },
                    None => None,
                }
            },
        }
    }
}

/// The `thumbnails/` directory under the application data directory.
pub fn thumbnails_root(app_dir: &str) -> (r: String)
    ensures
        r@ == joined(app_dir@, thumbnails_dir_name()),
{
    proof {
        reveal_strlit("thumbnails");
        assert("thumbnails"@ =~= thumbnails_dir_name());
    }
    join_path(app_dir, "thumbnails")
}

/// The directory a video's slot files live in: its folder's subdirectory
/// (already resolved from the registered watch folders) under the
/// thumbnails root.
pub fn video_thumbnail_dir(thumbnails_root: &str, folder_subdir: &str) -> (r: String)
    ensures
        r@ == joined(thumbnails_root@, folder_subdir@),
{
    join_path(thumbnails_root, folder_subdir)
}

/// `<video_id>_<slot>.webp`
pub fn thumbnail_file_name(video_id: &str, slot: usize) -> (r: String)
    ensures
        r@ == slot_file_name(video_id@, slot as nat),
{
    let mut out = chars_of(video_id);
    out.push('_');
    append_decimal(&mut out, slot);
    proof { reveal_strlit(".webp"); }
    append_str(&mut out, ".webp");
    string_of(&out)
}

/// The path of one of a video's slot files inside `video_dir`.
pub fn slot_path(video_dir: &str, video_id: &str, slot: usize) -> (r: String)
    ensures
        r@ == joined(video_dir@, slot_file_name(video_id@, slot as nat)),
{
    let name = thumbnail_file_name(video_id, slot);
    join_path(video_dir, name.as_str())
}

/// The paths of all of a video's slot files inside `video_dir`, in slot
/// order.
pub fn slot_paths(video_dir: &str, video_id: &str) -> (r: Vec<String>)
    ensures
        r.len() == THUMBNAILS_PER_VIDEO,
        forall|i: int|
            0 <= i < THUMBNAILS_PER_VIDEO ==> #[trigger] r[i]@ == joined(
                video_dir@,
                slot_file_name(video_id@, i as nat),
            ),
{
    let mut r: Vec<String> = Vec::new();
    let mut slot: usize = 0;
    while slot < THUMBNAILS_PER_VIDEO
        invariant
            slot <= THUMBNAILS_PER_VIDEO,
            r.len() == slot,
            forall|i: int|
                0 <= i < slot ==> #[trigger] r[i]@ == joined(
                    video_dir@,
                    slot_file_name(video_id@, i as nat),
                ),
        decreases THUMBNAILS_PER_VIDEO - slot,
    {
        let p = slot_path(video_dir, video_id, slot);
        r.push(p);
        slot = slot + 1;
    }
    r
}

proof fn lemma_last_index_in_range(s: Seq<char>, c: char)
    ensures
        last_index_of(s, c) matches Some(k) ==> 0 <= k < s.len() && s[k] == c,
    decreases s.len(),
{
    if s.len() > 0 && s.last() != c {
        lemma_last_index_in_range(s.drop_last(), c);
    }
}

fn last_underscore(s: &Vec<char>) -> (r: Option<usize>)
    ensures
        match r {
            Some(k) => last_index_of(s@, '_') == Some(k as int) && k < s.len(),
            None => last_index_of(s@, '_') is None,
        },
{
    let mut i = s.len();
    assert(s@.subrange(0, i as int) =~= s@);
    while i > 0
        invariant
            i <= s.len(),
            last_index_of(s@, '_') == last_index_of(s@.subrange(0, i as int), '_'),
        decreases i,
    {
        assert(s@.subrange(0, i as int).drop_last() =~= s@.subrange(0, i - 1));
        if s[i - 1] == '_' {
            proof { lemma_last_index_in_range(s@, '_'); }
            return Some(i - 1);
        }
        i = i - 1;
    }
    assert(s@.subrange(0, 0) =~= Seq::<char>::empty());
    None
}

/// Parses a flat-layout thumbnail file name (`<video_id>_<slot>.webp`, slot
/// below `THUMBNAILS_PER_VIDEO`) back into its `(video_id, slot)` parts;
/// `None` for anything else (a `.webp.tmp` leftover, an out-of-range slot,
/// an unrelated file).
pub fn parse_flat_thumbnail_file_name(file_name: &str) -> (r: Option<(String, usize)>)
    ensures
        match r {
            Some((id, slot)) => flat_thumbnail_parts(file_name@) == Some((id@, slot as nat)),
            None => flat_thumbnail_parts(file_name@) is None,
        },
{
    let name = chars_of(file_name);
    let ext = vec!['.', 'w', 'e', 'b', 'p'];
    assert(ext@ =~= webp_extension());
    if !vec_ends_with(&name, &ext) {
        return None;
    }
    let stem = sub_vec(&name, 0, name.len() - 5);
    let k = match last_underscore(&stem) {
        None => return None,
        Some(k) => k,
    };
    let id = sub_vec(&stem, 0, k);
    let slot_chars = sub_vec(&stem, k + 1, stem.len());
    let slot = match parse_usize_chars(&slot_chars) {
        None => return None,
        Some(slot) => slot,
    };
    if id.len() == 0 || slot >= THUMBNAILS_PER_VIDEO {
        return None;
    }
    Some((string_of(&id), slot))
}

proof fn lemma_last_index_after_marker(a: Seq<char>, b: Seq<char>)
    requires
        forall|i: int| 0 <= i < b.len() ==> #[trigger] b[i] != '_',
    ensures
        last_index_of(a.push('_') + b, '_') == Some(a.len() as int),
    decreases b.len(),
{
    let s = a.push('_') + b;
    if b.len() == 0 {
        assert(s =~= a.push('_'));
    } else {
        assert(s.drop_last() =~= a.push('_') + b.drop_last());
        assert(s.last() == b.last());
        lemma_last_index_after_marker(a, b.drop_last());
    }
}

/// A slot file name parses back to the video id and slot it was built from
/// (for a non-empty video id and an in-range slot): the last `_` is always
/// the one before the slot number, whatever the video id contains.
pub proof fn lemma_parse_slot_file_name(video_id: Seq<char>, slot: nat)
    requires
        video_id.len() > 0,
        slot < THUMBNAILS_PER_VIDEO,
    ensures
        flat_thumbnail_parts(slot_file_name(video_id, slot)) == Some((video_id, slot)),
{
    let name = slot_file_name(video_id, slot);
    let d = decimal(slot);
    lemma_decimal_digits(slot);
    lemma_parse_decimal(slot);
    assert(name.subrange(name.len() - 5, name.len() as int) =~= webp_extension());
    let stem = name.subrange(0, name.len() - 5);
    assert(stem =~= video_id.push('_') + d);
    assert forall|i: int| 0 <= i < d.len() implies #[trigger] d[i] != '_' by {
        assert(is_ascii_digit(d[i]));
    }
    lemma_last_index_after_marker(video_id, d);
    assert(stem.subrange(0, video_id.len() as int) =~= video_id);
    assert(stem.subrange(video_id.len() as int + 1, stem.len() as int) =~= d);
}

/// One planned move of a slot file.
pub struct ThumbnailMove {
    pub from: String,
    pub to: String,
}

/// The slot-file moves that carry `video_id`'s cached thumbnails from
/// `old_dir` to `new_dir`: one move per slot whose file exists
/// (`slot_exists[slot]`), in slot order; nothing when the two directories
/// are the same path (compared as `Path`s are, component by component). A
/// missing slot is simply not moved.
pub fn plan_thumbnail_moves(
    video_id: &str,
    old_dir: &str,
    new_dir: &str,
    slot_exists: &Vec<bool>,
) -> (r: Vec<ThumbnailMove>)
    requires
        slot_exists.len() == THUMBNAILS_PER_VIDEO,
    ensures
        same_path(old_dir@, new_dir@) ==> r.len() == 0,
        !same_path(old_dir@, new_dir@) ==> r.len() == moved_slots(slot_exists@).len(),
        !same_path(old_dir@, new_dir@) ==> forall|j: int|
            0 <= j < r.len() ==> {
                let slot = #[trigger] moved_slots(slot_exists@)[j];
                &&& r[j].from@ == joined(old_dir@, slot_file_name(video_id@, slot as nat))
                &&& r[j].to@ == joined(new_dir@, slot_file_name(video_id@, slot as nat))
            },
{
    let mut r: Vec<ThumbnailMove> = Vec::new();
    if paths_equal(old_dir, new_dir) {
        return r;
    }
    let mut slot: usize = 0;
    while slot < THUMBNAILS_PER_VIDEO
        invariant
            slot <= THUMBNAILS_PER_VIDEO,
            slot_exists.len() == THUMBNAILS_PER_VIDEO,
            r.len() == moved_slots(slot_exists@.subrange(0, slot as int)).len(),
            forall|j: int|
                0 <= j < r.len() ==> {
                    let s = #[trigger] moved_slots(slot_exists@.subrange(0, slot as int))[j];
                    &&& r[j].from@ == joined(old_dir@, slot_file_name(video_id@, s as nat))
                    &&& r[j].to@ == joined(new_dir@, slot_file_name(video_id@, s as nat))
                },
        decreases THUMBNAILS_PER_VIDEO - slot,
    {
        let ghost prev = slot_exists@.subrange(0, slot as int);
        assert(slot_exists@.subrange(0, slot + 1) =~= prev.push(slot_exists@[slot as int]));
        assert(slot_exists@.subrange(0, slot + 1).drop_last() =~= prev);
        if slot_exists[slot] {
            let from = slot_path(old_dir, video_id, slot);
            let to = slot_path(new_dir, video_id, slot);
            r.push(ThumbnailMove { from, to });
        }
        slot = slot + 1;
    }
    assert(slot_exists@.subrange(0, THUMBNAILS_PER_VIDEO as int) =~= slot_exists@);
    r
}

/// The slots (as indexes) whose flag is set, in order.
pub open spec fn moved_slots(flags: Seq<bool>) -> Seq<int>
    decreases flags.len(),
{
    if flags.len() == 0 {
        Seq::empty()
    } else if flags.last() {
        moved_slots(flags.drop_last()).push(flags.len() - 1)
    } else {
        moved_slots(flags.drop_last())
    }
}

/// The `plan_thumbnail_moves` plan for a video whose file moved from one
/// folder subdirectory (`old_subdir`) to another (`new_subdir`), both already
/// resolved from the registered watch folders.
pub fn move_video_thumbnails(
    thumbnails_root: &str,
    old_subdir: &str,
    new_subdir: &str,
    video_id: &str,
    slot_exists: &Vec<bool>,
) -> (r: Vec<ThumbnailMove>)
    requires
        slot_exists.len() == THUMBNAILS_PER_VIDEO,
    ensures
        same_path(joined(thumbnails_root@, old_subdir@), joined(thumbnails_root@, new_subdir@))
            ==> r.len() == 0,
        !same_path(joined(thumbnails_root@, old_subdir@), joined(thumbnails_root@, new_subdir@))
            ==> r.len() == moved_slots(slot_exists@).len(),
        !same_path(joined(thumbnails_root@, old_subdir@), joined(thumbnails_root@, new_subdir@))
            ==> forall|j: int|
            0 <= j < r.len() ==> {
                let slot = #[trigger] moved_slots(slot_exists@)[j];
                &&& r[j].from@ == joined(
                    joined(thumbnails_root@, old_subdir@),
                    slot_file_name(video_id@, slot as nat),
                )
                &&& r[j].to@ == joined(
                    joined(thumbnails_root@, new_subdir@),
                    slot_file_name(video_id@, slot as nat),
                )
            },
{
    let old_dir = video_thumbnail_dir(thumbnails_root, old_subdir);
    let new_dir = video_thumbnail_dir(thumbnails_root, new_subdir);
    plan_thumbnail_moves(video_id, old_dir.as_str(), new_dir.as_str(), slot_exists)
}


/// Where carrying out a move plan stands with the new directory.
#[derive(Clone, Copy, Debug, PartialEq, Eq, Structural)]
pub enum DirectoryState {
    /// Not created yet.
    Pending,
    /// Created (or already there).
    Ready,
    /// Could not be created.
    Failed,
}

/// Progress through a move plan of `total` moves: the new directory is
/// created once, then every move is attempted in order, whatever happened
/// to the ones before; `all_moved` turns false at the first failure.
#[derive(Clone, Copy, Debug, PartialEq, Eq, Structural)]
pub struct MoveProgress {
    pub total: usize,
    pub attempted: usize,
    pub directory: DirectoryState,
    pub all_moved: bool,
}

/// A plan of `total` moves, nothing done yet.
pub open spec fn initial_progress(total: usize) -> MoveProgress {
    MoveProgress { total, attempted: 0, directory: DirectoryState::Pending, all_moved: true }
}

/// After trying to create the new directory.
pub open spec fn with_directory(p: MoveProgress, created: bool) -> MoveProgress {
    MoveProgress {
        directory: if created {
            DirectoryState::Ready
        } else {
            DirectoryState::Failed
        },
        all_moved: p.all_moved && created,
        ..p
    }
}

/// After attempting the next move.
pub open spec fn with_rename(p: MoveProgress, moved: bool) -> MoveProgress {
    MoveProgress { attempted: (p.attempted + 1) as usize, all_moved: p.all_moved && moved, ..p }
}

/// The index of the next move to attempt: the moves go in order once the
/// directory is ready, and none after it could not be created.
pub open spec fn next_move_of(p: MoveProgress) -> Option<usize> {
    if p.directory == DirectoryState::Ready && p.attempted < p.total {
        Some(p.attempted)
    } else {
        None
    }
}

/// After the given move results, in order.
pub open spec fn with_renames(p: MoveProgress, moved: Seq<bool>) -> MoveProgress
    decreases moved.len(),
{
    if moved.len() == 0 {
        p
    } else {
        with_rename(with_renames(p, moved.drop_last()), moved.last())
    }
}

impl MoveProgress {
    /// Starts a plan of `total` moves.
    pub fn new(total: usize) -> (r: MoveProgress)
        ensures
            r == initial_progress(total),
    {
        MoveProgress { total, attempted: 0, directory: DirectoryState::Pending, all_moved: true }
    }

    /// Whether the new directory must be created now: only when there is
    /// something to move and it has not been tried yet.
    pub fn needs_directory(&self) -> (r: bool)
        ensures
            r == (self.total > 0 && self.directory == DirectoryState::Pending),
    {
        self.total > 0 && self.directory == DirectoryState::Pending
    }

    /// Records whether creating the new directory succeeded.
    pub fn record_directory(&mut self, created: bool)
        requires
            old(self).directory == DirectoryState::Pending,
        ensures
            *final(self) == with_directory(*old(self), created),
    {
        self.directory = if created {
            DirectoryState::Ready
        } else {
            DirectoryState::Failed
        };
        self.all_moved = self.all_moved && created;
    }

    /// The index in the plan of the next move to attempt, if any.
    pub fn next_move(&self) -> (r: Option<usize>)
        ensures
            r == next_move_of(*self),
    {
        if self.directory == DirectoryState::Ready && self.attempted < self.total {
            Some(self.attempted)
        } else {
            None
        }
    }

    /// Records whether the move `next_move` named succeeded.
    pub fn record_move(&mut self, moved: bool)
        requires
            next_move_of(*old(self)) is Some,
        ensures
            *final(self) == with_rename(*old(self), moved),
    {
        self.attempted = self.attempted + 1;
        self.all_moved = self.all_moved && moved;
    }

    /// Whether every move succeeded: false when the directory could not be
    /// created or any move failed.
    pub fn outcome(&self) -> (r: bool)
        ensures
            r == self.all_moved,
    {
        self.all_moved
    }
}

/// Carrying out a plan of `total > 0` moves: when the new directory is
/// created, the moves are offered in order, one after each recorded result
/// whatever it was, until all `total` were attempted; the outcome is true
/// exactly when every one succeeded. When the directory cannot be created,
/// no move is attempted and the outcome is false. An empty plan needs no
/// directory, offers no move and succeeds.
pub proof fn lemma_move_plan_outcome(total: usize, created: bool, moved: Seq<bool>)
    requires
        moved.len() <= total,
    ensures
        initial_progress(0).all_moved && next_move_of(initial_progress(0)) is None,
        total > 0 && !created ==> next_move_of(with_directory(initial_progress(total), false)) is None
            && !with_directory(initial_progress(total), false).all_moved,
        created ==> forall|k: int|
            0 <= k < moved.len() ==> next_move_of(
                #[trigger] with_renames(with_directory(initial_progress(total), true), moved.take(k)),
            ) == Some(k as usize),
        created && moved.len() == total ==> next_move_of(
            with_renames(with_directory(initial_progress(total), true), moved),
        ) is None,
        created ==> (with_renames(with_directory(initial_progress(total), true), moved).all_moved <==> forall|
            k: int,
        | 0 <= k < moved.len() ==> #[trigger] moved[k]),
{
    let start = with_directory(initial_progress(total), true);
    lemma_renames_progress(start, moved);
    if created {
        assert forall|k: int| 0 <= k < moved.len() implies next_move_of(
            #[trigger] with_renames(start, moved.take(k)),
        ) == Some(k as usize) by {
            lemma_renames_progress(start, moved.take(k));
        }
    }
}

proof fn lemma_renames_progress(p: MoveProgress, moved: Seq<bool>)
    requires
        p.attempted == 0,
        p.all_moved,
        moved.len() <= p.total,
    ensures
        with_renames(p, moved).attempted == moved.len(),
        with_renames(p, moved).total == p.total,
        with_renames(p, moved).directory == p.directory,
        with_renames(p, moved).all_moved <==> forall|k: int| 0 <= k < moved.len() ==> #[trigger] moved[k],
    decreases moved.len(),
{
    if moved.len() > 0 {
        let init = moved.drop_last();
        lemma_renames_progress(p, init);
        if with_renames(p, moved).all_moved {
            assert forall|k: int| 0 <= k < moved.len() implies #[trigger] moved[k] by {
                if k < moved.len() - 1 {
                    assert(init[k] == moved[k]);
                }
            }
        }
        if forall|k: int| 0 <= k < moved.len() ==> #[trigger] moved[k] {
            assert forall|k: int| 0 <= k < init.len() implies #[trigger] init[k] by {
                assert(init[k] == moved[k]);
            }
            assert(moved[moved.len() - 1]);
        }
    }
}

/// The character for a 6-bit value in the standard base64 alphabet:
/// `A`-`Z`, `a`-`z`, `0`-`9`, `+`, `/`.
pub open spec fn base64_char(v: int) -> char {
    if v < 26 {
        (65 + v) as char
    } else if v < 52 {
        (97 + v - 26) as char
    } else if v < 62 {
        (48 + v - 52) as char
    } else if v == 62 {
        '+'
    } else {
        '/'
    }
}

/// The standard, padded base64 text of `bytes`: every group of three bytes
/// becomes four characters of six bits each, high bits first; a last group
/// of one or two bytes is filled up with zero bits and padded with `=` to
/// four characters.
pub open spec fn base64_standard(bytes: Seq<u8>) -> Seq<char>
    decreases bytes.len(),
{
    if bytes.len() == 0 {
        Seq::empty()
    } else {
        let b0 = bytes[0] as int;
        if bytes.len() == 1 {
            seq![base64_char(b0 / 4), base64_char((b0 % 4) * 16), '=', '=']
        } else {
            let b1 = bytes[1] as int;
            if bytes.len() == 2 {
                seq![
                    base64_char(b0 / 4),
                    base64_char((b0 % 4) * 16 + b1 / 16),
                    base64_char((b1 % 16) * 4),
                    '=',
                ]
            } else {
                let b2 = bytes[2] as int;
                seq![
                    base64_char(b0 / 4),
                    base64_char((b0 % 4) * 16 + b1 / 16),
                    base64_char((b1 % 16) * 4 + b2 / 64),
                    base64_char(b2 % 64),
                ] + base64_standard(bytes.skip(3))
            }
        }
    }
}

/// Whether base64-encoding `n` bytes fits the output length in a `usize`.
pub open spec fn encoded_len_fits(n: nat) -> bool {
    if n % 3 == 0 {
        (n / 3) * 4 <= usize::MAX
    } else {
        (n / 3) * 4 + 4 <= usize::MAX
    }
}

/// `base64::engine::general_purpose::STANDARD.encode`: the padded,
/// standard-alphabet encoding of the bytes (`base64_standard`, as RFC 4648
/// defines it). It panics only when the encoded length
/// (four characters per started group of three bytes) overflows a `usize`,
/// which `requires` rules out.
#[verifier::external_body]
fn encode_base64_standard(bytes: &[u8]) -> (r: String)
    requires
        encoded_len_fits(bytes@.len()),
    ensures
        r@ == base64_standard(bytes@),
{
    base64::engine::general_purpose::STANDARD.encode(bytes)
}

/// `data:image/webp;base64,`
pub open spec fn webp_data_url_prefix() -> Seq<char> {
    "data:image/webp;base64,"@
}

/// A slot file's bytes as a `data:` URL the user interface can show
/// directly.
pub fn thumbnail_data_url(bytes: &[u8]) -> (r: String)
    requires
        encoded_len_fits(bytes@.len()),
    ensures
        r@ == webp_data_url_prefix() + base64_standard(bytes@),
{
    let encoded = encode_base64_standard(bytes);
    let mut v = chars_of("data:image/webp;base64,");
    append_str(&mut v, encoded.as_str());
    string_of(&v)
}

/// The `data:` URLs of a video's slot files, in slot order.
pub fn thumbnail_data_urls(slots: &Vec<Vec<u8>>) -> (r: Vec<String>)
    requires
        forall|i: int| 0 <= i < slots.len() ==> encoded_len_fits(#[trigger] slots[i]@.len()),
    ensures
        r.len() == slots.len(),
        forall|i: int|
            0 <= i < slots.len() ==> #[trigger] r[i]@ == webp_data_url_prefix() + base64_standard(
                slots[i]@,
            ),
{
    let mut r: Vec<String> = Vec::new();
    let mut i: usize = 0;
    while i < slots.len()
        invariant
            i <= slots.len(),
            r.len() == i,
            forall|k: int| 0 <= k < slots.len() ==> encoded_len_fits(#[trigger] slots[k]@.len()),
            forall|k: int|
                0 <= k < i ==> #[trigger] r[k]@ == webp_data_url_prefix() + base64_standard(
                    slots[k]@,
                ),
        decreases slots.len() - i,
    {
        let url = thumbnail_data_url(slots[i].as_slice());
        r.push(url);
        i = i + 1;
    }
    r
}
} // verus!
