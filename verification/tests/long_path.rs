use graybrowser::long_path::{strip_long_path_prefix, to_long_path};

#[test]
fn to_long_path_prefixes_a_drive_letter_absolute_path() {
    let got = to_long_path(r"C:\foo\bar.mp4");
    assert_eq!(got, r"\\?\C:\foo\bar.mp4");
}

#[test]
fn to_long_path_prefixes_a_unc_path_with_the_unc_form() {
    let got = to_long_path(r"\\nas\share\foo\bar.mp4");
    assert_eq!(got, r"\\?\UNC\nas\share\foo\bar.mp4");
    assert!(got.starts_with(r"\\?\UNC\"));
}

#[test]
fn to_long_path_is_idempotent_on_an_already_prefixed_drive_path() {
    let once = to_long_path(r"C:\foo\bar.mp4");
    let twice = to_long_path(&once);
    assert_eq!(once, twice);
}

#[test]
fn to_long_path_is_idempotent_on_an_already_prefixed_unc_path() {
    let once = to_long_path(r"\\nas\share\foo\bar.mp4");
    let twice = to_long_path(&once);
    assert_eq!(once, twice);
}

#[test]
fn to_long_path_does_not_mangle_a_relative_path() {
    let got = to_long_path(r"foo\bar.mp4");
    assert_eq!(got, r"foo\bar.mp4");
    assert!(!got.starts_with(r"\\?\"));
}

#[test]
fn strip_long_path_prefix_restores_a_drive_letter_path() {
    let got = strip_long_path_prefix(r"\\?\C:\foo\bar.mp4");
    assert_eq!(got, r"C:\foo\bar.mp4");
}

#[test]
fn strip_long_path_prefix_restores_a_unc_path_to_its_double_backslash_form() {
    let got = strip_long_path_prefix(r"\\?\UNC\nas\share\foo\bar.mp4");
    assert_eq!(got, r"\\nas\share\foo\bar.mp4");
}

#[test]
fn strip_long_path_prefix_is_a_no_op_on_an_unprefixed_path() {
    let got = strip_long_path_prefix(r"C:\foo\bar.mp4");
    assert_eq!(got, r"C:\foo\bar.mp4");
}

#[test]
fn to_long_path_then_strip_round_trips_for_drive_and_unc_paths() {
    for raw in [r"C:\foo\bar.mp4", r"\\nas\share\foo\bar.mp4"] {
        let prefixed = to_long_path(raw);
        let restored = strip_long_path_prefix(&prefixed);
        assert_eq!(restored, raw, "round-trip failed for {raw}");
    }
}

#[test]
fn to_long_path_accepts_forward_slash_drive_paths_and_leaves_others_alone() {
    assert_eq!(to_long_path("C:/videos/a.mp4"), r"\\?\C:/videos/a.mp4");
    assert_eq!(to_long_path("C:"), "C:");
    assert_eq!(to_long_path(""), "");
}

#[test]
fn strip_long_path_prefix_of_a_plain_unc_path_is_unchanged() {
    assert_eq!(strip_long_path_prefix(r"\\nas\share\a.mp4"), r"\\nas\share\a.mp4");
}
