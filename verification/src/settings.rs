//! Persisted settings and the small rules around them: the watch-folder
//! list (stored as JSON), editing that list, the network polling interval,
//! video ratings, and the version line of an external tool.

use vstd::prelude::*;
use crate::text::{parse_i64, chars_of, string_of, parse_i64_chars, append_decimal, append_str, decimal, is_ascii_digit, lemma_decimal_digits};

verus! {

/// serde_json's error type, carried through opaquely.
#[verifier::external_type_specification]
#[verifier::external_body]
pub struct ExJsonError(serde_json::Error);

/// The list of strings serde_json reads from `json`; `None` when it
/// reports an error.
pub uninterp spec fn json_string_list(json: Seq<char>) -> Option<Seq<Seq<char>>>;

/// The JSON text serde_json writes for a list of strings.
pub uninterp spec fn json_of_string_list(items: Seq<Seq<char>>) -> Seq<char>;

/// `serde_json::from_str::<Vec<String>>`: the result is a function of the
/// text alone, named `json_string_list`; an error means that name is `None`.
#[verifier::external_body]
fn read_json_string_list(json: &str) -> (r: Result<Vec<String>, serde_json::Error>)
    ensures
        match r {
            Ok(v) => json_string_list(json@) == Some(v.deep_view()),
            Err(_) => json_string_list(json@) is None,
        },
{
    serde_json::from_str::<Vec<String>>(json)
}

/// `serde_json::to_string` on a list of strings: the text is
/// `json_of_string_list` of the items, a JSON array of escaped strings that
/// `serde_json::from_str` reads back as the same list. It never fails here:
/// serialization only fails when its writer does, and it writes into a
/// `Vec<u8>`.
#[verifier::external_body]
fn write_json_string_list(items: &Vec<String>) -> (r: Result<String, serde_json::Error>)
    ensures
        r is Ok,
        r matches Ok(s) ==> s@ == json_of_string_list(items.deep_view()) && json_string_list(s@)
            == Some(items.deep_view()),
{
    serde_json::to_string(items)
}

/// Why a setting could not be read or written.
#[derive(Clone, Copy, Debug, PartialEq, Eq, Structural)]
pub enum SettingsError {
    /// The stored watch-folder list is not a JSON list of strings.
    InvalidWatchFolders,
    /// The watch-folder list could not be written as JSON.
    UnwritableWatchFolders,
    /// The stored polling interval is not an `i64`.
    InvalidPollInterval,
}

/// The watch folders a stored setting value holds: none when the setting
/// was never written, the JSON list otherwise.
pub fn watch_folders_from_setting(value: Option<&str>) -> (r: Result<Vec<String>, SettingsError>)
    ensures
        value is None ==> (r matches Ok(v) && v@.len() == 0),
        value matches Some(json) ==> match r {
            Ok(v) => json_string_list(json@) == Some(v.deep_view()),
            Err(e) => json_string_list(json@) is None && e == SettingsError::InvalidWatchFolders,
        },
{
    match value {
        None => Ok(Vec::new()),
        Some(json) => match read_json_string_list(json) {
            Ok(v) => Ok(v),
            Err(_) => Err(SettingsError::InvalidWatchFolders),
        },
    }
}

/// The setting value that stores `folders`; it is always written, and
/// reading it back gives the same folders.
pub fn watch_folders_setting_value(folders: &Vec<String>) -> (r: Result<String, SettingsError>)
    ensures
        r is Ok,
        json_string_list(r->Ok_0@) == Some(folders.deep_view()),
        match r {
            Ok(s) => s@ == json_of_string_list(folders.deep_view()) && json_string_list(s@) == Some(
                folders.deep_view(),
            ),
            Err(e) => e == SettingsError::UnwritableWatchFolders,
        },
{
    match write_json_string_list(folders) {
        Ok(s) => Ok(s),
        Err(_) => Err(SettingsError::UnwritableWatchFolders),
    }
}

/// Default network polling interval: ten minutes.
pub const DEFAULT_NAS_POLL_INTERVAL_SECS: i64 = 600;

/// The polling interval a stored setting value holds: the default when the
/// setting was never written, the value as `str::parse::<i64>` reads it
/// otherwise.
pub fn nas_poll_interval_from_setting(value: Option<&str>) -> (r: Result<i64, SettingsError>)
    ensures
        value is None ==> r == Ok::<i64, SettingsError>(DEFAULT_NAS_POLL_INTERVAL_SECS),
        value matches Some(s) ==> match r {
            Ok(n) => parse_i64(s@) == Some(n as int),
            Err(e) => parse_i64(s@) is None && e == SettingsError::InvalidPollInterval,
        },
{
    match value {
        None => Ok(DEFAULT_NAS_POLL_INTERVAL_SECS),
        Some(s) => {
            let chars = chars_of(s);
            match parse_i64_chars(&chars) {
                Some(n) => Ok(n),
                None => Err(SettingsError::InvalidPollInterval),
            }
        },
    }
}

/// The text an interval is stored as: its decimal numeral, `-` first when
/// negative.
pub open spec fn poll_interval_text(secs: int) -> Seq<char> {
    if secs >= 0 {
        decimal(secs as nat)
    } else {
        seq!['-'] + decimal((-secs) as nat)
    }
}

/// The setting value that stores a polling interval.
pub fn nas_poll_interval_setting_value(secs: i64) -> (r: String)
    ensures
        r@ == poll_interval_text(secs as int),
{
    let mut v: Vec<char> = Vec::new();
    if secs >= 0 {
        append_u64_decimal(&mut v, secs as u64);
        assert(v@ =~= decimal(secs as nat));
    } else {
        v.push('-');
        let magnitude: u64 = if secs == i64::MIN {
            9223372036854775808u64
        } else {
            (-secs) as u64
        };
        append_u64_decimal(&mut v, magnitude);
        assert(v@ =~= seq!['-'] + decimal((-secs) as nat));
    }
    string_of(&v)
}

fn append_u64_decimal(v: &mut Vec<char>, n: u64)
    ensures
        final(v)@ == old(v)@ + decimal(n as nat),
    decreases n,
{
    if n >= 10 {
        append_u64_decimal(v, n / 10);
    }
    let d: u8 = (n % 10) as u8;
    let c: char = (d + 48u8) as char;
    assert(c == crate::text::digit_char((n % 10) as nat));
    v.push(c);
    assert(final(v)@ =~= old(v)@ + decimal(n as nat));
}

/// A stored polling interval reads back as the interval that was stored.
pub proof fn law_poll_interval_round_trip(secs: i64)
    ensures
        parse_i64(poll_interval_text(secs as int)) == Some(secs as int),
{
    if secs >= 0 {
        lemma_decimal_digits(secs as nat);
        let t = decimal(secs as nat);
        assert(is_ascii_digit(t[0]));
    } else {
        let m: nat = (-secs) as nat;
        lemma_decimal_digits(m);
        let t = seq!['-'] + decimal(m);
        assert(t.skip(1) =~= decimal(m));
    }
}

/// Whether `folder` is one of `folders` (by exact text).
pub open spec fn contains_folder(folders: Seq<String>, folder: Seq<char>) -> bool {
    exists|i: int| 0 <= i < folders.len() && #[trigger] folders[i]@ == folder
}

/// Why a watch-folder rename is refused before anything is written.
#[derive(Clone, Copy, Debug, PartialEq, Eq, Structural)]
pub enum RenameRejection {
    /// The folder to rename is not a registered watch folder.
    NotRegistered,
    /// The new path duplicates, contains or lies inside another registered
    /// watch folder.
    ConflictsWithAnotherFolder,
}

/// Checks a rename of the watch folder `old` to `new` against the
/// registered folders. `conflicts_with_new[i]` tells whether `existing[i]`
/// and `new` are the same folder or one contains the other. Renaming a
/// folder to its own path is allowed: only conflicts with *other* folders
/// count.
pub fn validate_rename_target(
    existing: &Vec<String>,
    old_folder_path: &str,
    conflicts_with_new: &Vec<bool>,
) -> (r: Result<(), RenameRejection>)
    requires
        conflicts_with_new.len() == existing.len(),
    ensures
        !contains_folder(existing@, old_folder_path@) ==> r == Err::<(), RenameRejection>(
            RenameRejection::NotRegistered,
        ),
        contains_folder(existing@, old_folder_path@) ==> (r is Ok <==> forall|i: int|
            0 <= i < existing.len() && #[trigger] existing[i]@ != old_folder_path@
                ==> !conflicts_with_new[i]),
        r is Err && contains_folder(existing@, old_folder_path@) ==> r == Err::<
            (),
            RenameRejection,
        >(RenameRejection::ConflictsWithAnotherFolder),
{
    let old = chars_of(old_folder_path);
    let mut found = false;
    let mut i: usize = 0;
    while i < existing.len()
        invariant
            i <= existing.len(),
            old@ == old_folder_path@,
            found <==> exists|j: int| 0 <= j < i && #[trigger] existing[j]@ == old_folder_path@,
        decreases existing.len() - i,
    {
        let f = chars_of(existing[i].as_str());
        if crate::text::vec_eq(&f, &old) {
            found = true;
        }
        i = i + 1;
    }
    if !found {
        return Err(RenameRejection::NotRegistered);
    }
    assert(contains_folder(existing@, old_folder_path@));
    let mut k: usize = 0;
    while k < existing.len()
        invariant
            k <= existing.len(),
            conflicts_with_new.len() == existing.len(),
            old@ == old_folder_path@,
            contains_folder(existing@, old_folder_path@),
            forall|j: int|
                0 <= j < k && #[trigger] existing[j]@ != old_folder_path@ ==> !conflicts_with_new[j],
        decreases existing.len() - k,
    {
        let f = chars_of(existing[k].as_str());
        if !crate::text::vec_eq(&f, &old) && conflicts_with_new[k] {
            return Err(RenameRejection::ConflictsWithAnotherFolder);
        }
        k = k + 1;
    }
    Ok(())
}

/// The folders other than `removed`, in order.
pub open spec fn without_folder(folders: Seq<String>, removed: Seq<char>) -> Seq<String>
    decreases folders.len(),
{
    if folders.len() == 0 {
        Seq::empty()
    } else if folders.last()@ == removed {
        without_folder(folders.drop_last(), removed)
    } else {
        without_folder(folders.drop_last(), removed).push(folders.last())
    }
}

proof fn lemma_without_folder(folders: Seq<String>, removed: Seq<char>)
    ensures
        forall|i: int|
            0 <= i < without_folder(folders, removed).len() ==> #[trigger] without_folder(folders, removed)[i]@
                != removed,
        forall|i: int|
            0 <= i < folders.len() && #[trigger] folders[i]@ != removed ==> without_folder(
                folders,
                removed,
            ).contains(folders[i]),
    decreases folders.len(),
{
    if folders.len() > 0 {
        let prev = folders.drop_last();
        lemma_without_folder(prev, removed);
        let w = without_folder(folders, removed);
        let pw = without_folder(prev, removed);
        assert forall|i: int| 0 <= i < w.len() implies #[trigger] w[i]@ != removed by {
            if i < pw.len() {
                assert(w[i] == pw[i]);
            }
        }
        assert forall|i: int| 0 <= i < folders.len() && #[trigger] folders[i]@ != removed implies w.contains(folders[i]) by {
            if i < folders.len() - 1 {
                assert(folders[i] == prev[i]);
                assert(pw.contains(prev[i]));
                let j = choose|j: int| 0 <= j < pw.len() && pw[j] == prev[i];
                if folders.last()@ != removed {
                    assert(w[j] == pw[j]);
                }
            } else {
                assert(w[w.len() - 1] == folders.last());
            }
        }
    }
}

/// The watch-folder list after removing `removed`: every other folder stays,
/// in order, and `removed` no longer appears.
pub fn remaining_folders(folders: &Vec<String>, removed: &str) -> (r: Vec<String>)
    ensures
        r@ == without_folder(folders@, removed@),
        forall|i: int| 0 <= i < r.len() ==> #[trigger] r[i]@ != removed@,
        forall|i: int| 0 <= i < folders.len() && #[trigger] folders[i]@ != removed@ ==> r@.contains(folders[i]),
{
    let target = chars_of(removed);
    let mut r: Vec<String> = Vec::new();
    let mut i: usize = 0;
    while i < folders.len()
        invariant
            i <= folders.len(),
            target@ == removed@,
            r@ == without_folder(folders@.subrange(0, i as int), removed@),
        decreases folders.len() - i,
    {
        assert(folders@.subrange(0, i + 1).drop_last() =~= folders@.subrange(0, i as int));
        let f = chars_of(folders[i].as_str());
        if !crate::text::vec_eq(&f, &target) {
            r.push(folders[i].clone());
        }
        i = i + 1;
    }
    assert(folders@.subrange(0, i as int) =~= folders@);
    proof {
        lemma_without_folder(folders@, removed@);
    }
    r
}

/// The watch-folder list after renaming `old` to `new`: same length and
/// order, every occurrence of `old` replaced by `new`, all others kept.
pub fn renamed_folders(folders: &Vec<String>, old_folder_path: &str, new_folder_path: &str) -> (r:
    Vec<String>)
    ensures
        r.len() == folders.len(),
        forall|i: int|
            0 <= i < folders.len() ==> #[trigger] r[i]@ == (if folders[i]@ == old_folder_path@ {
                new_folder_path@
            } else {
                folders[i]@
            }),
{
    let old = chars_of(old_folder_path);
    let mut r: Vec<String> = Vec::new();
    let mut i: usize = 0;
    while i < folders.len()
        invariant
            i <= folders.len(),
            old@ == old_folder_path@,
            r.len() == i,
            forall|j: int|
                0 <= j < i ==> #[trigger] r[j]@ == (if folders[j]@ == old_folder_path@ {
                    new_folder_path@
                } else {
                    folders[j]@
                }),
        decreases folders.len() - i,
    {
        let f = chars_of(folders[i].as_str());
        if crate::text::vec_eq(&f, &old) {
            r.push(String::from_str(new_folder_path));
        } else {
            r.push(folders[i].clone());
        }
        i = i + 1;
    }
    r
}

/// Highest star rating; 0 means unrated.
pub const MAX_RATING: u8 = 5;

/// Accepts a rating of 0 to 5 stars; anything higher is returned as the
/// error.
pub fn validate_rating(rating: u8) -> (r: Result<u8, u8>)
    ensures
        rating <= MAX_RATING ==> r == Ok::<u8, u8>(rating),
        rating > MAX_RATING ==> r == Err::<u8, u8>(rating),
{
    if rating <= MAX_RATING {
        Ok(rating)
    } else {
        Err(rating)
    }
}

/// `rating <value> is out of range (must be 0-5)`
pub fn rating_error_message(value: u8) -> (r: String)
    ensures
        r@ == seq!['r', 'a', 't', 'i', 'n', 'g', ' '] + decimal(value as nat) + " is out of range (must be 0-5)"@,
{
    let mut v: Vec<char> = Vec::new();
    proof {
        reveal_strlit("rating ");
        reveal_strlit(" is out of range (must be 0-5)");
    }
    append_str(&mut v, "rating ");
    append_decimal(&mut v, value as usize);
    append_str(&mut v, " is out of range (must be 0-5)");
    assert(v@ =~= seq!['r', 'a', 't', 'i', 'n', 'g', ' '] + decimal(value as nat) + " is out of range (must be 0-5)"@);
    string_of(&v)
}

/// Index of the first `\n` in `s`.
pub open spec fn first_newline(s: Seq<char>) -> Option<int>
    decreases s.len(),
{
    if s.len() == 0 {
        None
    } else if s[0] == '\n' {
        Some(0)
    } else {
        match first_newline(s.skip(1)) {
            Some(k) => Some(k + 1),
            None => None,
        }
    }
}

/// The first line of `s` as `str::lines` yields it: text up to the first
/// `\n` with one `\r` before it dropped, or all of a text without `\n`;
/// an empty text has no lines.
pub open spec fn first_line(s: Seq<char>) -> Option<Seq<char>> {
    if s.len() == 0 {
        None
    } else {
        match first_newline(s) {
            None => Some(s),
            Some(k) => {
                let line = s.subrange(0, k);
                if line.len() > 0 && line.last() == '\r' {
                    Some(line.drop_last())
                } else {
                    Some(line)
                }
            },
        }
    }
}

proof fn lemma_first_newline(s: Seq<char>, i: int)
    requires
        0 <= i <= s.len(),
        forall|j: int| 0 <= j < i ==> s[j] != '\n',
    ensures
        i < s.len() && s[i] == '\n' ==> first_newline(s) == Some(i),
        i == s.len() ==> first_newline(s) is None,
    decreases i,
{
    if i > 0 {
        let t = s.skip(1);
        assert forall|j: int| 0 <= j < i - 1 implies t[j] != '\n' by {
            assert(t[j] == s[j + 1]);
        }
        lemma_first_newline(t, i - 1);
        if i < s.len() {
            assert(t[i - 1] == s[i]);
        }
    } else if s.len() == 0 {
    }
}

/// The version line a tool reports for `-version`: the first line of its
/// standard output when it ran successfully, nothing otherwise.
pub fn version_of(exit_success: bool, stdout: &str) -> (r: Option<String>)
    ensures
        !exit_success ==> r is None,
        exit_success ==> match first_line(stdout@) {
            Some(line) => r is Some && r->0@ == line,
            None => r is None,
        },
{
    if !exit_success {
        return None;
    }
    let s = chars_of(stdout);
    if s.len() == 0 {
        return None;
    }
    let mut i: usize = 0;
    while i < s.len() && s[i] != '\n'
        invariant
            i <= s.len(),
            forall|j: int| 0 <= j < i ==> s@[j] != '\n',
        decreases s.len() - i,
    {
        i = i + 1;
    }
    proof {
        lemma_first_newline(s@, i as int);
    }
    if i == s.len() {
        return Some(string_of(&s));
    }
    let mut end = i;
    if end > 0 && s[end - 1] == '\r' {
        end = end - 1;
    }
    let line = crate::text::sub_vec(&s, 0, end);
    assert(line@ =~= first_line(s@)->0);
    Some(string_of(&line))
}

} // verus!
