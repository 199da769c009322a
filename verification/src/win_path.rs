//! Joining Windows paths the way `Path::join` does on Windows.
//!
//! A path may start with a prefix: a drive (`C:`), a UNC share
//! (`\\server\share`), a device namespace (`\\.\COM1`) or one of the
//! verbatim forms (`\\?\C:`, `\\?\UNC\server\share`, `\\?\name`). Joining
//! `name` onto `dir`:
//! - a `name` with a prefix replaces `dir`;
//! - onto a verbatim `dir` (and a non-empty `name`) the result is rebuilt
//!   from components: `.` parts of `name` are dropped, `..` removes the last
//!   normal component, a rooted `name` keeps only `dir`'s prefix, and the
//!   components are joined with `\`;
//! - a rooted `name` (starting with `\` or `/`) keeps only `dir`'s prefix;
//! - otherwise a `\` is inserted unless `dir` is empty, already ends in a
//!   separator, or is a bare drive such as `C:`.
//!
//! Only `\` separates components inside a verbatim path; elsewhere `/`
//! does too.

use vstd::prelude::*;
use crate::text::{is_ascii_alpha, chars_of, string_of, sub_vec, append_chars, vec_eq};

verus! {

/// A path separator: `\` or `/`.
pub open spec fn is_separator(c: char) -> bool {
    c == '\\' || c == '/'
}

/// A separator between components: only `\` inside a verbatim path.
pub open spec fn is_component_sep(c: char, verbatim: bool) -> bool {
    if verbatim {
        c == '\\'
    } else {
        is_separator(c)
    }
}

/// Index of the first component separator at or after `i`; the length of
/// `s` when there is none.
pub open spec fn sep_from(s: Seq<char>, i: int, verbatim: bool) -> int
    decreases s.len() - i,
{
    if i < 0 || i >= s.len() {
        s.len() as int
    } else if is_component_sep(s[i], verbatim) {
        i
    } else {
        sep_from(s, i + 1, verbatim)
    }
}

pub proof fn lemma_sep_from(s: Seq<char>, i: int, verbatim: bool)
    requires
        0 <= i <= s.len(),
    ensures
        i <= sep_from(s, i, verbatim) <= s.len(),
        sep_from(s, i, verbatim) < s.len() ==> is_component_sep(s[sep_from(s, i, verbatim)], verbatim),
        forall|j: int| i <= j < sep_from(s, i, verbatim) ==> !is_component_sep(#[trigger] s[j], verbatim),
    decreases s.len() - i,
{
    if i < s.len() && !is_component_sep(s[i], verbatim) {
        lemma_sep_from(s, i + 1, verbatim);
    }
}

/// The kind of a path prefix.
#[derive(Clone, Copy, Debug, PartialEq, Eq, Structural)]
pub enum PrefixKind {
    /// `\\?\name`
    Verbatim,
    /// `\\?\UNC\server\share`
    VerbatimUnc,
    /// `\\?\C:`
    VerbatimDisk,
    /// `\\.\name`
    DeviceNs,
    /// `\\server\share`
    Unc,
    /// `C:`
    Disk,
}

pub open spec fn is_verbatim_kind(k: PrefixKind) -> bool {
    k == PrefixKind::Verbatim || k == PrefixKind::VerbatimUnc || k == PrefixKind::VerbatimDisk
}

/// The prefix of `s` and its length, as Windows parses it; `None` when `s`
/// has no prefix. Two leading separators open a verbatim (`\\?\`, written
/// with `\` only), device (`\\.\`) or UNC prefix; the UNC form needs a
/// non-empty server and share. Otherwise a letter and `:` make a drive.
pub open spec fn path_prefix(s: Seq<char>) -> Option<(PrefixKind, int)> {
    if s.len() >= 2 && is_separator(s[0]) && is_separator(s[1]) {
        if s.len() >= 4 && s[0] == '\\' && s[1] == '\\' && s[2] == '?' && s[3] == '\\' {
            if s.len() >= 8 && s[4] == 'U' && s[5] == 'N' && s[6] == 'C' && is_separator(s[7]) {
                let e1 = sep_from(s, 8, true);
                if e1 < s.len() && sep_from(s, e1 + 1, true) > e1 + 1 {
                    Some((PrefixKind::VerbatimUnc, sep_from(s, e1 + 1, true)))
                } else {
                    Some((PrefixKind::VerbatimUnc, e1))
                }
            } else if s.len() >= 6 && is_ascii_alpha(s[4]) && s[5] == ':' && (s.len() == 6 || s[6]
                == '\\') {
                Some((PrefixKind::VerbatimDisk, 6))
            } else {
                Some((PrefixKind::Verbatim, sep_from(s, 4, true)))
            }
        } else if s.len() >= 4 && s[2] == '.' && is_separator(s[3]) {
            Some((PrefixKind::DeviceNs, sep_from(s, 4, false)))
        } else {
            let e1 = sep_from(s, 2, false);
            if e1 > 2 && e1 < s.len() && sep_from(s, e1 + 1, false) > e1 + 1 {
                Some((PrefixKind::Unc, sep_from(s, e1 + 1, false)))
            } else {
                None
            }
        }
    } else if s.len() >= 2 && is_ascii_alpha(s[0]) && s[1] == ':' {
        Some((PrefixKind::Disk, 2))
    } else {
        None
    }
}

/// The length of `s`'s prefix (0 without one).
pub open spec fn prefix_len(s: Seq<char>) -> int {
    match path_prefix(s) {
        Some((_, n)) => n,
        None => 0,
    }
}

pub open spec fn has_verbatim_prefix(s: Seq<char>) -> bool {
    path_prefix(s) matches Some((k, _)) && is_verbatim_kind(k)
}

proof fn lemma_path_prefix_bounds(s: Seq<char>)
    ensures
        path_prefix(s) matches Some((_, n)) ==> 2 <= n <= s.len(),
{
    if s.len() >= 8 {
        lemma_sep_from(s, 8, true);
        let e1 = sep_from(s, 8, true);
        if e1 < s.len() {
            lemma_sep_from(s, e1 + 1, true);
        }
    }
    if s.len() >= 4 {
        lemma_sep_from(s, 4, true);
        lemma_sep_from(s, 4, false);
    }
    if s.len() >= 2 {
        lemma_sep_from(s, 2, false);
        let e1 = sep_from(s, 2, false);
        if e1 < s.len() {
            lemma_sep_from(s, e1 + 1, false);
        }
    }
}

/// One component of a parsed path.
pub enum PathComp {
    Prefix { text: Seq<char>, drive: bool },
    RootDir,
    CurDir,
    ParentDir,
    Normal(Seq<char>),
}

/// The component one separator-free piece makes: none for an empty piece
/// (and for `.` outside a verbatim path), `.`, `..` or a normal name.
pub open spec fn piece_comps(p: Seq<char>, verbatim: bool) -> Seq<PathComp> {
    if p.len() == 0 {
        Seq::empty()
    } else if p == seq!['.'] {
        if verbatim {
            seq![PathComp::CurDir]
        } else {
            Seq::empty()
        }
    } else if p == seq!['.', '.'] {
        seq![PathComp::ParentDir]
    } else {
        seq![PathComp::Normal(p)]
    }
}

/// The components of `s` from index `i` on, split at component separators.
pub open spec fn comps_from(s: Seq<char>, i: int, verbatim: bool) -> Seq<PathComp>
    decreases s.len() + 1 - i,
{
    if i < 0 || i > s.len() {
        Seq::empty()
    } else {
        proof {
            lemma_sep_from(s, i, verbatim);
        }
        let e = sep_from(s, i, verbatim);
        piece_comps(s.subrange(i, e), verbatim) + comps_from(s, e + 1, verbatim)
    }
}

pub open spec fn has_physical_root(s: Seq<char>) -> bool {
    prefix_len(s) < s.len() && is_separator(s[prefix_len(s)])
}

/// The components of a verbatim path: its prefix, its root if any, then
/// the parts between `\`.
pub open spec fn verbatim_dir_comps(s: Seq<char>) -> Seq<PathComp> {
    let p = prefix_len(s);
    let head = seq![PathComp::Prefix { text: s.subrange(0, p), drive: false }];
    if has_physical_root(s) {
        head.push(PathComp::RootDir) + comps_from(s, p + 1, true)
    } else {
        head + comps_from(s, p, true)
    }
}

/// The components of a path without prefix: its root if any, then the
/// parts between separators (`.` parts left out).
pub open spec fn name_comps(s: Seq<char>) -> Seq<PathComp> {
    if s.len() > 0 && is_separator(s[0]) {
        seq![PathComp::RootDir] + comps_from(s, 1, false)
    } else {
        comps_from(s, 0, false)
    }
}

/// Adds one component of the joined name to the components built so far.
pub open spec fn join_step(b: Seq<PathComp>, c: PathComp) -> Seq<PathComp> {
    match c {
        PathComp::RootDir => b.subrange(0, if b.len() > 0 { 1int } else { 0int }).push(PathComp::RootDir),
        PathComp::CurDir => b,
        PathComp::ParentDir => if b.len() > 0 && b.last() is Normal {
            b.drop_last()
        } else {
            b
        },
        _ => b.push(c),
    }
}

pub open spec fn join_all(b: Seq<PathComp>, cs: Seq<PathComp>) -> Seq<PathComp>
    decreases cs.len(),
{
    if cs.len() == 0 {
        b
    } else {
        join_step(join_all(b, cs.drop_last()), cs.last())
    }
}

pub open spec fn comp_text(c: PathComp) -> Seq<char> {
    match c {
        PathComp::Prefix { text, drive } => text,
        PathComp::RootDir => seq!['\\'],
        PathComp::CurDir => seq!['.'],
        PathComp::ParentDir => seq!['.', '.'],
        PathComp::Normal(t) => t,
    }
}

/// Whether a `\` goes between this component and a following non-root one.
pub open spec fn sep_after(c: PathComp) -> bool {
    match c {
        PathComp::RootDir => false,
        PathComp::Prefix { text, drive } => !drive && text.len() > 0,
        _ => true,
    }
}

/// The text of a component list.
pub open spec fn render(b: Seq<PathComp>) -> Seq<char>
    decreases b.len(),
{
    if b.len() == 0 {
        Seq::empty()
    } else {
        let prev = b.drop_last();
        let sep = prev.len() > 0 && sep_after(prev.last()) && !(b.last() is RootDir);
        render(prev) + (if sep {
            seq!['\\']
        } else {
            Seq::empty()
        }) + comp_text(b.last())
    }
}

/// `dir` is a bare drive such as `C:`.
pub open spec fn drive_only(s: Seq<char>) -> bool {
    s.len() == 2 && path_prefix(s) == Some((PrefixKind::Disk, 2int))
}

/// Whether plain joining inserts a `\` after `dir`.
pub open spec fn needs_separator(dir: Seq<char>) -> bool {
    dir.len() > 0 && !is_separator(dir.last()) && !drive_only(dir)
}

/// `Path::new(dir).join(name)` on Windows.
pub open spec fn joined(dir: Seq<char>, name: Seq<char>) -> Seq<char> {
    if path_prefix(name) is Some {
        name
    } else if has_verbatim_prefix(dir) && name.len() > 0 {
        render(join_all(verbatim_dir_comps(dir), name_comps(name)))
    } else if name.len() > 0 && is_separator(name[0]) {
        dir.subrange(0, prefix_len(dir)) + name
    } else if needs_separator(dir) {
        dir.push('\\') + name
    } else {
        dir + name
    }
}

fn is_sep_char(c: char) -> (b: bool)
    ensures
        b == is_separator(c),
{
    c == '\\' || c == '/'
}

fn is_alpha_char(c: char) -> (b: bool)
    ensures
        b == is_ascii_alpha(c),
{
    ('a' <= c && c <= 'z') || ('A' <= c && c <= 'Z')
}

fn is_sep_at(s: &Vec<char>, j: usize, verbatim: bool) -> (b: bool)
    requires
        j < s.len(),
    ensures
        b == is_component_sep(s@[j as int], verbatim),
{
    if verbatim {
        s[j] == '\\'
    } else {
        is_sep_char(s[j])
    }
}

fn sep_index(s: &Vec<char>, i: usize, verbatim: bool) -> (e: usize)
    requires
        i <= s.len(),
    ensures
        e as int == sep_from(s@, i as int, verbatim),
{
    let mut j = i;
    while j < s.len() && !is_sep_at(s, j, verbatim)
        invariant
            i <= j <= s.len(),
            sep_from(s@, i as int, verbatim) == sep_from(s@, j as int, verbatim),
        decreases s.len() - j,
    {
        j = j + 1;
    }
    j
}

/// The prefix of `s` and its length.
pub fn path_prefix_of(s: &Vec<char>) -> (r: Option<(PrefixKind, usize)>)
    ensures
        match r {
            Some((k, n)) => path_prefix(s@) == Some((k, n as int)),
            None => path_prefix(s@) is None,
        },
{
    proof {
        lemma_path_prefix_bounds(s@);
    }
    let n = s.len();
    if n >= 2 && is_sep_char(s[0]) && is_sep_char(s[1]) {
        if n >= 4 && s[0] == '\\' && s[1] == '\\' && s[2] == '?' && s[3] == '\\' {
            if n >= 8 && s[4] == 'U' && s[5] == 'N' && s[6] == 'C' && is_sep_char(s[7]) {
                let e1 = sep_index(s, 8, true);
                proof {
                    lemma_sep_from(s@, 8, true);
                }
                if e1 < n {
                    let e2 = sep_index(s, e1 + 1, true);
                    if e2 > e1 + 1 {
                        return Some((PrefixKind::VerbatimUnc, e2));
                    }
                }
                Some((PrefixKind::VerbatimUnc, e1))
            } else if n >= 6 && is_alpha_char(s[4]) && s[5] == ':' && (n == 6 || s[6] == '\\') {
                Some((PrefixKind::VerbatimDisk, 6))
            } else {
                Some((PrefixKind::Verbatim, sep_index(s, 4, true)))
            }
        } else if n >= 4 && s[2] == '.' && is_sep_char(s[3]) {
            Some((PrefixKind::DeviceNs, sep_index(s, 4, false)))
        } else {
            let e1 = sep_index(s, 2, false);
            proof {
                lemma_sep_from(s@, 2, false);
            }
            if e1 > 2 && e1 < n {
                let e2 = sep_index(s, e1 + 1, false);
                if e2 > e1 + 1 {
                    return Some((PrefixKind::Unc, e2));
                }
            }
            None
        }
    } else if n >= 2 && is_alpha_char(s[0]) && s[1] == ':' {
        Some((PrefixKind::Disk, 2))
    } else {
        None
    }
}

/// A parsed component.
enum Comp {
    Prefix { text: Vec<char>, drive: bool },
    RootDir,
    CurDir,
    ParentDir,
    Normal(Vec<char>),
}

impl View for Comp {
    type V = PathComp;

    closed spec fn view(&self) -> PathComp {
        match self {
            Comp::Prefix { text, drive } => PathComp::Prefix { text: text@, drive: *drive },
            Comp::RootDir => PathComp::RootDir,
            Comp::CurDir => PathComp::CurDir,
            Comp::ParentDir => PathComp::ParentDir,
            Comp::Normal(t) => PathComp::Normal(t@),
        }
    }
}

spec fn comps_view(v: Seq<Comp>) -> Seq<PathComp> {
    v.map_values(|c: Comp| c@)
}

fn push_comp(out: &mut Vec<Comp>, c: Comp)
    ensures
        comps_view(final(out)@) == comps_view(old(out)@).push(c@),
{
    let ghost v = c@;
    out.push(c);
    assert(comps_view(out@) =~= comps_view(old(out)@).push(v));
}

fn push_piece(out: &mut Vec<Comp>, piece: Vec<char>, verbatim: bool)
    ensures
        comps_view(final(out)@) == comps_view(old(out)@) + piece_comps(piece@, verbatim),
{
    let n = piece.len();
    if n == 0 {
        assert(comps_view(out@) =~= comps_view(old(out)@) + piece_comps(piece@, verbatim));
    } else if n == 1 && piece[0] == '.' {
        assert(piece@ =~= seq!['.']);
        if verbatim {
            push_comp(out, Comp::CurDir);
            assert(comps_view(out@) =~= comps_view(old(out)@) + piece_comps(piece@, verbatim));
        } else {
            assert(comps_view(out@) =~= comps_view(old(out)@) + piece_comps(piece@, verbatim));
        }
    } else if n == 2 && piece[0] == '.' && piece[1] == '.' {
        assert(piece@ =~= seq!['.', '.']);
        assert(piece@ != seq!['.']);
        push_comp(out, Comp::ParentDir);
        assert(comps_view(out@) =~= comps_view(old(out)@) + piece_comps(piece@, verbatim));
    } else {
        assert(piece@ != seq!['.']) by {
            if n == 1 {
                assert(piece@[0] != seq!['.'][0]);
            }
        }
        assert(piece@ != seq!['.', '.']) by {
            if n == 2 {
                assert(piece@[0] != '.' || piece@[1] != '.');
            }
        }
        let ghost pv = piece@;
        push_comp(out, Comp::Normal(piece));
        assert(comps_view(out@) =~= comps_view(old(out)@) + piece_comps(pv, verbatim));
    }
}

/// Appends the components of `s` from index `start` on.
fn push_comps_from(s: &Vec<char>, start: usize, verbatim: bool, out: &mut Vec<Comp>)
    requires
        start <= s.len(),
    ensures
        comps_view(final(out)@) == comps_view(old(out)@) + comps_from(s@, start as int, verbatim),
{
    let ghost base = comps_view(out@);
    let mut i = start;
    let mut done = false;
    while !done
        invariant
            start <= i <= s.len(),
            done ==> comps_view(out@) == base + comps_from(s@, start as int, verbatim),
            !done ==> comps_view(out@) + comps_from(s@, i as int, verbatim) == base + comps_from(
                s@,
                start as int,
                verbatim,
            ),
        decreases s.len() - i + (if done { 0int } else { 1int }),
    {
        let e = sep_index(s, i, verbatim);
        proof {
            lemma_sep_from(s@, i as int, verbatim);
        }
        let ghost before = comps_view(out@);
        let ghost rest = comps_from(s@, e + 1, verbatim);
        assert(comps_from(s@, i as int, verbatim) == piece_comps(s@.subrange(i as int, e as int), verbatim)
            + rest);
        let piece = sub_vec(s, i, e);
        push_piece(out, piece, verbatim);
        if e == s.len() {
            assert(rest =~= Seq::<PathComp>::empty());
            assert(comps_view(out@) =~= before + comps_from(s@, i as int, verbatim));
            done = true;
        } else {
            assert(comps_view(out@) + rest =~= before + comps_from(s@, i as int, verbatim));
            i = e + 1;
        }
    }
}

fn comp_is_normal(c: &Comp) -> (b: bool)
    ensures
        b == (c@ is Normal),
{
    match c {
        Comp::Normal(_) => true,
        _ => false,
    }
}

/// Joins the name's components onto the directory's, one `join_step` each.
fn join_comps(buf: Vec<Comp>, name: Vec<Comp>) -> (r: Vec<Comp>)
    ensures
        comps_view(r@) == join_all(comps_view(buf@), comps_view(name@)),
{
    let ghost b0 = comps_view(buf@);
    let ghost all = comps_view(name@);
    let ghost n = name.len();
    let mut b = buf;
    let mut rest = name;
    let mut taken: usize = 0;
    while rest.len() > 0
        invariant
            taken + rest.len() == n,
            all.len() == n,
            forall|i: int| 0 <= i < rest.len() ==> #[trigger] rest@[i]@ == all[taken + i],
            comps_view(b@) == join_all(b0, all.subrange(0, taken as int)),
        decreases rest.len(),
    {
        let c = rest.remove(0);
        let ghost cv = c@;
        assert(cv == all[taken as int]);
        assert(all.subrange(0, taken + 1).drop_last() =~= all.subrange(0, taken as int));
        assert(all.subrange(0, taken + 1).last() == cv);
        let ghost prev = comps_view(b@);
        match c {
            Comp::RootDir => {
                if b.len() > 0 {
                    b.truncate(1);
                }
                assert(comps_view(b@) =~= prev.subrange(0, if prev.len() > 0 { 1int } else { 0int }));
                push_comp(&mut b, Comp::RootDir);
            },
            Comp::CurDir => {},
            Comp::ParentDir => {
                let k = b.len();
                if k > 0 && comp_is_normal(&b[k - 1]) {
                    b.pop();
                    assert(comps_view(b@) =~= prev.drop_last());
                }
            },
            other => {
                push_comp(&mut b, other);
            },
        }
        assert(comps_view(b@) == join_step(prev, cv));
        taken = taken + 1;
    }
    assert(all.subrange(0, n as int) =~= all);
    b
}

fn sep_after_comp(c: &Comp) -> (b: bool)
    ensures
        b == sep_after(c@),
{
    match c {
        Comp::RootDir => false,
        Comp::Prefix { text, drive } => !*drive && text.len() > 0,
        _ => true,
    }
}

fn append_comp_text(out: &mut Vec<char>, c: &Comp)
    ensures
        final(out)@ == old(out)@ + comp_text(c@),
{
    match c {
        Comp::Prefix { text, drive } => append_chars(out, text),
        Comp::RootDir => {
            out.push('\\');
            assert(out@ =~= old(out)@ + comp_text(c@));
        },
        Comp::CurDir => {
            out.push('.');
            assert(out@ =~= old(out)@ + comp_text(c@));
        },
        Comp::ParentDir => {
            out.push('.');
            out.push('.');
            assert(out@ =~= old(out)@ + comp_text(c@));
        },
        Comp::Normal(t) => append_chars(out, t),
    }
}

fn render_comps(b: &Vec<Comp>) -> (r: Vec<char>)
    ensures
        r@ == render(comps_view(b@)),
{
    let ghost bv = comps_view(b@);
    let mut out: Vec<char> = Vec::new();
    let mut k: usize = 0;
    while k < b.len()
        invariant
            k <= b.len(),
            bv == comps_view(b@),
            out@ == render(bv.subrange(0, k as int)),
        decreases b.len() - k,
    {
        let ghost pre = bv.subrange(0, k as int);
        assert(bv.subrange(0, k + 1).drop_last() =~= pre);
        assert(bv.subrange(0, k + 1).last() == b@[k as int]@);
        let is_root = match &b[k] {
            Comp::RootDir => true,
            _ => false,
        };
        if k > 0 && sep_after_comp(&b[k - 1]) && !is_root {
            assert(pre.last() == b@[k - 1]@);
            out.push('\\');
        } else {
            assert(k > 0 ==> pre.last() == b@[k - 1]@);
        }
        append_comp_text(&mut out, &b[k]);
        assert(out@ =~= render(bv.subrange(0, k + 1)));
        k = k + 1;
    }
    assert(bv.subrange(0, b.len() as int) =~= bv);
    out
}

/// Joins `name` onto `dir` as `Path::join` does on Windows.
pub fn join_path(dir: &str, name: &str) -> (r: String)
    ensures
        r@ == joined(dir@, name@),
{
    let d = chars_of(dir);
    let n = chars_of(name);
    proof {
        lemma_path_prefix_bounds(d@);
    }
    if path_prefix_of(&n).is_some() {
        return string_of(&n);
    }
    let dp = path_prefix_of(&d);
    let (verbatim, plen) = match dp {
        Some((k, p)) => (
            match k {
                PrefixKind::Verbatim | PrefixKind::VerbatimUnc | PrefixKind::VerbatimDisk => true,
                _ => false,
            },
            p,
        ),
        None => (false, 0),
    };
    assert(plen as int == prefix_len(d@));
    assert(verbatim == has_verbatim_prefix(d@));
    if verbatim && n.len() > 0 {
        let mut buf: Vec<Comp> = Vec::new();
        let head = sub_vec(&d, 0, plen);
        push_comp(&mut buf, Comp::Prefix { text: head, drive: false });
        if plen < d.len() && is_sep_char(d[plen]) {
            push_comp(&mut buf, Comp::RootDir);
            push_comps_from(&d, plen + 1, true, &mut buf);
        } else {
            push_comps_from(&d, plen, true, &mut buf);
        }
        assert(comps_view(buf@) =~= verbatim_dir_comps(d@));
        let mut nc: Vec<Comp> = Vec::new();
        if n.len() > 0 && is_sep_char(n[0]) {
            push_comp(&mut nc, Comp::RootDir);
            push_comps_from(&n, 1, false, &mut nc);
        } else {
            push_comps_from(&n, 0, false, &mut nc);
        }
        assert(comps_view(nc@) =~= name_comps(n@));
        let joined_comps = join_comps(buf, nc);
        let text = render_comps(&joined_comps);
        return string_of(&text);
    }
    if n.len() > 0 && is_sep_char(n[0]) {
        let mut out = sub_vec(&d, 0, plen);
        append_chars(&mut out, &n);
        return string_of(&out);
    }
    let len = d.len();
    let drive_only = len == 2 && match dp {
        Some((PrefixKind::Disk, 2)) => true,
        _ => false,
    };
    let mut out = d;
    if len > 0 && !is_sep_char(out[len - 1]) && !drive_only {
        out.push('\\');
    }
    append_chars(&mut out, &n);
    string_of(&out)
}

/// A drive letter as paths compare it: case does not matter.
pub open spec fn letter_key(c: char) -> int {
    if 'a' <= c && c <= 'z' {
        c as int - 32
    } else {
        c as int
    }
}

/// The server and share of a UNC prefix whose server starts at `start`
/// (the share is empty when there is none).
pub open spec fn unc_parts(s: Seq<char>, start: int, verbatim: bool) -> (Seq<char>, Seq<char>) {
    let e1 = sep_from(s, start, verbatim);
    let n = prefix_len(s);
    (s.subrange(start, e1), if n > e1 {
        s.subrange(e1 + 1, n)
    } else {
        Seq::empty()
    })
}

/// Whether two paths have equal prefixes: none at all, or prefixes of one
/// kind with the same drive letter (in either case), the same server and
/// share, or the same name.
pub open spec fn same_prefix(a: Seq<char>, b: Seq<char>) -> bool {
    match (path_prefix(a), path_prefix(b)) {
        (None, None) => true,
        (Some((ka, na)), Some((kb, nb))) => ka == kb && match ka {
            PrefixKind::Disk => letter_key(a[0]) == letter_key(b[0]),
            PrefixKind::VerbatimDisk => letter_key(a[4]) == letter_key(b[4]),
            PrefixKind::Verbatim => a.subrange(4, na) == b.subrange(4, nb),
            PrefixKind::DeviceNs => a.subrange(4, na) == b.subrange(4, nb),
            PrefixKind::Unc => unc_parts(a, 2, false) == unc_parts(b, 2, false),
            PrefixKind::VerbatimUnc => unc_parts(a, 8, true) == unc_parts(b, 8, true),
        },
        _ => false,
    }
}

/// The components of `s` after its prefix: a root (written, or implied by
/// a UNC or device prefix), or a leading `.` of a path without prefix or
/// root, then the parts between separators.
pub open spec fn body_comps(s: Seq<char>) -> Seq<PathComp> {
    let n = prefix_len(s);
    let verbatim = has_verbatim_prefix(s);
    if has_physical_root(s) {
        seq![PathComp::RootDir] + comps_from(s, n + 1, verbatim)
    } else if path_prefix(s) matches Some((k, _)) && (k == PrefixKind::Unc || k
        == PrefixKind::DeviceNs) {
        seq![PathComp::RootDir] + comps_from(s, n, verbatim)
    } else if path_prefix(s) is None && s.len() > 0 && s[0] == '.' && (s.len() == 1
        || is_separator(s[1])) {
        seq![PathComp::CurDir] + comps_from(s, 1, false)
    } else {
        comps_from(s, n, verbatim)
    }
}

/// `Path::new(a) == Path::new(b)` on Windows: equal prefixes and equal
/// components after them.
pub open spec fn same_path(a: Seq<char>, b: Seq<char>) -> bool {
    same_prefix(a, b) && body_comps(a) == body_comps(b)
}

fn letter_key_of(c: char) -> (r: u32)
    ensures
        r as int == letter_key(c),
{
    let code = c as u32;
    if 'a' <= c && c <= 'z' {
        code - 32
    } else {
        code
    }
}

fn unc_parts_equal(a: &Vec<char>, na: usize, b: &Vec<char>, nb: usize, start: usize, verbatim: bool) -> (r: bool)
    requires
        start <= a.len(),
        start <= b.len(),
        na as int == prefix_len(a@),
        nb as int == prefix_len(b@),
        sep_from(a@, start as int, verbatim) <= na <= a.len(),
        sep_from(b@, start as int, verbatim) <= nb <= b.len(),
        na > sep_from(a@, start as int, verbatim) ==> na >= sep_from(a@, start as int, verbatim) + 1,
    ensures
        r == (unc_parts(a@, start as int, verbatim) == unc_parts(b@, start as int, verbatim)),
{
    let ea = sep_index(a, start, verbatim);
    let eb = sep_index(b, start, verbatim);
    proof {
        lemma_sep_from(a@, start as int, verbatim);
        lemma_sep_from(b@, start as int, verbatim);
    }
    let sa = sub_vec(a, start, ea);
    let sb = sub_vec(b, start, eb);
    let ha = if na > ea { sub_vec(a, ea + 1, na) } else { Vec::new() };
    let hb = if nb > eb { sub_vec(b, eb + 1, nb) } else { Vec::new() };
    assert(na <= ea ==> ha@ =~= Seq::<char>::empty());
    assert(nb <= eb ==> hb@ =~= Seq::<char>::empty());
    let same_server = vec_eq(&sa, &sb);
    let same_share = vec_eq(&ha, &hb);
    same_server && same_share
}

fn prefixes_equal(a: &Vec<char>, b: &Vec<char>) -> (r: bool)
    ensures
        r == same_prefix(a@, b@),
{
    proof {
        lemma_path_prefix_bounds(a@);
        lemma_path_prefix_bounds(b@);
    }
    match (path_prefix_of(a), path_prefix_of(b)) {
        (None, None) => true,
        (Some((ka, na)), Some((kb, nb))) => {
            if ka != kb {
                return false;
            }
            match ka {
                PrefixKind::Disk => letter_key_of(a[0]) == letter_key_of(b[0]),
                PrefixKind::VerbatimDisk => letter_key_of(a[4]) == letter_key_of(b[4]),
                PrefixKind::Verbatim | PrefixKind::DeviceNs => {
                    proof {
                        lemma_sep_from(a@, 4, ka == PrefixKind::Verbatim);
                        lemma_sep_from(b@, 4, ka == PrefixKind::Verbatim);
                    }
                    let sa = sub_vec(a, 4, na);
                    let sb = sub_vec(b, 4, nb);
                    vec_eq(&sa, &sb)
                },
                PrefixKind::Unc => {
                    proof {
                        lemma_sep_from(a@, 2, false);
                        lemma_sep_from(b@, 2, false);
                        lemma_sep_from(a@, sep_from(a@, 2, false) + 1, false);
                        lemma_sep_from(b@, sep_from(b@, 2, false) + 1, false);
                    }
                    unc_parts_equal(a, na, b, nb, 2, false)
                },
                PrefixKind::VerbatimUnc => {
                    proof {
                        lemma_sep_from(a@, 8, true);
                        lemma_sep_from(b@, 8, true);
                        if sep_from(a@, 8, true) < a.len() {
                            lemma_sep_from(a@, sep_from(a@, 8, true) + 1, true);
                        }
                        if sep_from(b@, 8, true) < b.len() {
                            lemma_sep_from(b@, sep_from(b@, 8, true) + 1, true);
                        }
                    }
                    unc_parts_equal(a, na, b, nb, 8, true)
                },
            }
        },
        _ => false,
    }
}

fn body_comps_of(s: &Vec<char>) -> (r: Vec<Comp>)
    ensures
        comps_view(r@) == body_comps(s@),
{
    proof {
        lemma_path_prefix_bounds(s@);
    }
    let p = path_prefix_of(s);
    let (n, verbatim, implied_root) = match p {
        Some((k, n)) => (
            n,
            match k {
                PrefixKind::Verbatim | PrefixKind::VerbatimUnc | PrefixKind::VerbatimDisk => true,
                _ => false,
            },
            match k {
                PrefixKind::Unc | PrefixKind::DeviceNs => true,
                _ => false,
            },
        ),
        None => (0, false, false),
    };
    assert(n as int == prefix_len(s@));
    assert(verbatim == has_verbatim_prefix(s@));
    let mut out: Vec<Comp> = Vec::new();
    if n < s.len() && is_sep_char(s[n]) {
        push_comp(&mut out, Comp::RootDir);
        push_comps_from(s, n + 1, verbatim, &mut out);
    } else if implied_root {
        push_comp(&mut out, Comp::RootDir);
        push_comps_from(s, n, verbatim, &mut out);
    } else if p.is_none() && s.len() > 0 && s[0] == '.' && (s.len() == 1 || is_sep_char(s[1])) {
        push_comp(&mut out, Comp::CurDir);
        push_comps_from(s, 1, false, &mut out);
    } else {
        push_comps_from(s, n, verbatim, &mut out);
    }
    assert(comps_view(out@) =~= body_comps(s@));
    out
}

fn comp_equal(a: &Comp, b: &Comp) -> (r: bool)
    ensures
        r == (a@ == b@),
{
    match (a, b) {
        (Comp::Prefix { text: ta, drive: da }, Comp::Prefix { text: tb, drive: db }) => {
            vec_eq(ta, tb) && *da == *db
        },
        (Comp::RootDir, Comp::RootDir) => true,
        (Comp::CurDir, Comp::CurDir) => true,
        (Comp::ParentDir, Comp::ParentDir) => true,
        (Comp::Normal(ta), Comp::Normal(tb)) => vec_eq(ta, tb),
        _ => false,
    }
}

fn comps_equal(a: &Vec<Comp>, b: &Vec<Comp>) -> (r: bool)
    ensures
        r == (comps_view(a@) == comps_view(b@)),
{
    if a.len() != b.len() {
        assert(comps_view(a@).len() != comps_view(b@).len());
        return false;
    }
    let mut i: usize = 0;
    while i < a.len()
        invariant
            a.len() == b.len(),
            i <= a.len(),
            forall|j: int| 0 <= j < i ==> comps_view(a@)[j] == comps_view(b@)[j],
        decreases a.len() - i,
    {
        if !comp_equal(&a[i], &b[i]) {
            assert(comps_view(a@)[i as int] != comps_view(b@)[i as int]);
            return false;
        }
        i = i + 1;
    }
    assert(comps_view(a@) =~= comps_view(b@));
    true
}

/// Whether `a` and `b` name the same path as `Path`'s `==` decides on
/// Windows: prefixes compared by what they parse to, then component by
/// component, so separators written twice, a trailing separator, `.` parts
/// and `/` for `\` make no difference.
pub fn paths_equal(a: &str, b: &str) -> (r: bool)
    ensures
        r == same_path(a@, b@),
{
    let ca = chars_of(a);
    let cb = chars_of(b);
    if !prefixes_equal(&ca, &cb) {
        return false;
    }
    let pa = body_comps_of(&ca);
    let pb = body_comps_of(&cb);
    comps_equal(&pa, &pb)
}

} // verus!
