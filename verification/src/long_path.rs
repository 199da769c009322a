//! Windows `\\?\` (extended-length, "verbatim") path prefixing, so a video
//! deeper than `MAX_PATH` can still be opened, walked and handed to
//! ffmpeg. Applied only right before the raw OS call; paths that are stored
//! or compared stay in plain form, so `strip_long_path_prefix` undoes the
//! prefix on every path read back from an OS API.
//!
//! Paths are modelled by their characters (`Seq<char>`); every path the
//! catalog stores is UTF-8.

use vstd::prelude::*;
use crate::text::{starts_with, is_ascii_alpha, chars_of, string_of, vec_starts_with, sub_vec, append_chars};

verus! {

/// `\\?\`
pub open spec fn verbatim_prefix() -> Seq<char> {
    seq!['\\', '\\', '?', '\\']
}

/// `\\?\UNC\`
pub open spec fn verbatim_unc_prefix() -> Seq<char> {
    seq!['\\', '\\', '?', '\\', 'U', 'N', 'C', '\\']
}

/// `\\`, the start of a UNC path (`\\server\share\...`).
pub open spec fn unc_prefix() -> Seq<char> {
    seq!['\\', '\\']
}

/// A drive-letter absolute path: `X:\...` or `X:/...`.
pub open spec fn is_drive_absolute(p: Seq<char>) -> bool {
    p.len() >= 3 && is_ascii_alpha(p[0]) && p[1] == ':' && (p[2] == '\\' || p[2] == '/')
}

/// The verbatim form of `p`: unchanged when already prefixed, `\\?\UNC\`
/// in place of the leading `\\` of a UNC path, `\\?\` in front of a
/// drive-letter absolute path, and unchanged otherwise (a relative path
/// cannot take the prefix).
pub open spec fn long_path(p: Seq<char>) -> Seq<char> {
    if starts_with(p, verbatim_prefix()) {
        p
    } else if starts_with(p, unc_prefix()) {
        verbatim_unc_prefix() + p.skip(2)
    } else if is_drive_absolute(p) {
        verbatim_prefix() + p
    } else {
        p
    }
}

/// The plain form of `p`: `\\?\UNC\rest` becomes `\\rest`, `\\?\rest`
/// becomes `rest`, and any other path is unchanged.
pub open spec fn plain_path(p: Seq<char>) -> Seq<char> {
    if starts_with(p, verbatim_unc_prefix()) {
        unc_prefix() + p.skip(8)
    } else if starts_with(p, verbatim_prefix()) {
        p.skip(4)
    } else {
        p
    }
}

/// Every drive-letter absolute path, on any drive (an ASCII letter, `:`,
/// then `\` or `/`), takes the `\\?\` prefix in front of it unchanged.
pub proof fn lemma_every_drive_path_is_prefixed(p: Seq<char>)
    requires
        p.len() >= 3,
        ('a' <= p[0] && p[0] <= 'z') || ('A' <= p[0] && p[0] <= 'Z'),
        p[1] == ':',
        p[2] == '\\' || p[2] == '/',
    ensures
        long_path(p) == seq!['\\', '\\', '?', '\\'] + p,
{
    assert(!starts_with(p, verbatim_prefix()));
    assert(!starts_with(p, unc_prefix()));
}

fn verbatim_chars() -> (v: Vec<char>)
    ensures
        v@ == verbatim_prefix(),
{
    let v = vec!['\\', '\\', '?', '\\'];
    assert(v@ =~= verbatim_prefix());
    v
}

fn verbatim_unc_chars() -> (v: Vec<char>)
    ensures
        v@ == verbatim_unc_prefix(),
{
    let v = vec!['\\', '\\', '?', '\\', 'U', 'N', 'C', '\\'];
    assert(v@ =~= verbatim_unc_prefix());
    v
}

fn unc_chars() -> (v: Vec<char>)
    ensures
        v@ == unc_prefix(),
{
    let v = vec!['\\', '\\'];
    assert(v@ =~= unc_prefix());
    v
}

/// Converts an absolute path to its `\\?\`-prefixed verbatim form.
/// Idempotent, and a relative path is returned unchanged.
pub fn to_long_path(path: &str) -> (r: String)
    ensures
        r@ == long_path(path@),
        path@.len() >= 3 && (('a' <= path@[0] && path@[0] <= 'z') || ('A' <= path@[0] && path@[0]
            <= 'Z')) && path@[1] == ':' && (path@[2] == '\\' || path@[2] == '/') ==> r@ == seq![
            '\\',
            '\\',
            '?',
            '\\',
        ] + path@,
{
    let p = chars_of(path);
    let verbatim = verbatim_chars();
    if vec_starts_with(&p, &verbatim) {
        return string_of(&p);
    }
    let unc = unc_chars();
    if vec_starts_with(&p, &unc) {
        let mut out = verbatim_unc_chars();
        let rest = sub_vec(&p, 2, p.len());
        append_chars(&mut out, &rest);
        assert(rest@ =~= p@.skip(2));
        return string_of(&out);
    }
    let is_drive = p.len() >= 3 && (('a' <= p[0] && p[0] <= 'z') || ('A' <= p[0] && p[0] <= 'Z'))
        && p[1] == ':' && (p[2] == '\\' || p[2] == '/');
    if is_drive {
        let mut out = verbatim;
        append_chars(&mut out, &p);
        string_of(&out)
    } else {
        string_of(&p)
    }
}

/// The inverse of `to_long_path`: restores a `\\?\`- or `\\?\UNC\`-prefixed
/// path to its plain form; an unprefixed path is returned unchanged.
pub fn strip_long_path_prefix(path: &str) -> (r: String)
    ensures
        r@ == plain_path(path@),
{
    let p = chars_of(path);
    let verbatim_unc = verbatim_unc_chars();
    if vec_starts_with(&p, &verbatim_unc) {
        let mut out = unc_chars();
        let rest = sub_vec(&p, 8, p.len());
        append_chars(&mut out, &rest);
        assert(rest@ =~= p@.skip(8));
        return string_of(&out);
    }
    let verbatim = verbatim_chars();
    if vec_starts_with(&p, &verbatim) {
        let rest = sub_vec(&p, 4, p.len());
        assert(rest@ =~= p@.skip(4));
        string_of(&rest)
    } else {
        string_of(&p)
    }
}

proof fn lemma_prefix_of_concat(a: Seq<char>, b: Seq<char>, p: Seq<char>)
    requires
        starts_with(a, p),
    ensures
        starts_with(a + b, p),
{
    assert((a + b).subrange(0, p.len() as int) =~= a.subrange(0, p.len() as int));
}

/// Converting a path to its verbatim form twice is the same as converting
/// it once.
pub proof fn lemma_to_long_path_idempotent(p: Seq<char>)
    ensures
        long_path(long_path(p)) == long_path(p),
{
    if starts_with(p, verbatim_prefix()) {
    } else if starts_with(p, unc_prefix()) {
        assert(starts_with(verbatim_unc_prefix(), verbatim_prefix())) by {
            assert(verbatim_unc_prefix().subrange(0, 4) =~= verbatim_prefix());
        }
        lemma_prefix_of_concat(verbatim_unc_prefix(), p.skip(2), verbatim_prefix());
    } else if is_drive_absolute(p) {
        assert(starts_with(verbatim_prefix(), verbatim_prefix())) by {
            assert(verbatim_prefix().subrange(0, 4) =~= verbatim_prefix());
        }
        lemma_prefix_of_concat(verbatim_prefix(), p, verbatim_prefix());
    }
}

/// Stripping the verbatim prefix from `to_long_path`'s output gives back
/// the path it started from, for every path not already in verbatim form
/// (drive-letter and UNC paths round-trip; other paths are untouched by
/// both).
pub proof fn lemma_strip_undoes_to_long_path(p: Seq<char>)
    requires
        !starts_with(p, verbatim_prefix()),
    ensures
        plain_path(long_path(p)) == p,
{
    assert(!starts_with(p, verbatim_unc_prefix())) by {
        if starts_with(p, verbatim_unc_prefix()) {
            assert(p.subrange(0, 4) =~= verbatim_unc_prefix().subrange(0, 4));
            assert(verbatim_unc_prefix().subrange(0, 4) =~= verbatim_prefix());
        }
    }
    if starts_with(p, unc_prefix()) {
        let l = verbatim_unc_prefix() + p.skip(2);
        assert(l.subrange(0, 8) =~= verbatim_unc_prefix());
        assert(l.skip(8) =~= p.skip(2));
        assert(p.subrange(0, 2) =~= unc_prefix());
        assert(unc_prefix() + p.skip(2) =~= p);
    } else if is_drive_absolute(p) {
        let l = verbatim_prefix() + p;
        assert(l[5] == p[1]);
        assert(!starts_with(l, verbatim_unc_prefix())) by {
            if starts_with(l, verbatim_unc_prefix()) {
                assert(l.subrange(0, 8)[5] == verbatim_unc_prefix()[5]);
            }
        }
        assert(l.subrange(0, 4) =~= verbatim_prefix());
        assert(l.skip(4) =~= p);
    }
}

} // verus!
