use graybrowser::win_path::{join_path, paths_equal};

#[test]
fn plain_directories_get_one_backslash() {
    assert_eq!(join_path(r"C:\data", "thumbnails"), r"C:\data\thumbnails");
    assert_eq!(join_path(r"C:\data\", "x"), r"C:\data\x");
    assert_eq!(join_path("C:/data/", "x"), "C:/data/x");
    assert_eq!(join_path("data", "x"), r"data\x");
    assert_eq!(join_path("", "x"), "x");
    assert_eq!(join_path("data", ""), r"data\");
}

#[test]
fn a_bare_drive_takes_the_name_directly() {
    assert_eq!(join_path("C:", "thumbnails"), "C:thumbnails");
    assert_eq!(join_path("d:", "vid-1_3.webp"), "d:vid-1_3.webp");
    assert_eq!(join_path("C:", r"\x"), r"C:\x");
    assert_eq!(join_path("1:", "x"), r"1:\x");
}

#[test]
fn a_name_with_a_prefix_replaces_the_directory() {
    assert_eq!(join_path(r"C:\a", "D:x"), "D:x");
    assert_eq!(join_path(r"C:\a", r"\\srv\share\x"), r"\\srv\share\x");
    assert_eq!(join_path(r"\\?\C:\a", "D:x"), "D:x");
}

#[test]
fn a_rooted_name_keeps_only_the_directory_prefix() {
    assert_eq!(join_path(r"C:\a\b", r"\x"), r"C:\x");
    assert_eq!(join_path(r"C:\a\b", "/x"), "C:/x");
    assert_eq!(join_path(r"\\srv\sh\a", r"\x"), r"\\srv\sh\x");
    assert_eq!(join_path(r"\a\b", r"\x"), r"\x");
    assert_eq!(join_path(r"\\.\COM1\a", r"\x"), r"\\.\COM1\x");
}

#[test]
fn an_incomplete_unc_directory_is_joined_plainly() {
    assert_eq!(join_path(r"\\srv", r"\x"), r"\x");
    assert_eq!(join_path(r"\\srv", "x"), r"\\srv\x");
}

#[test]
fn verbatim_directories_are_rebuilt_from_components() {
    assert_eq!(join_path(r"\\?\C:\t\", "x"), r"\\?\C:\t\x");
    assert_eq!(join_path(r"\\?\C:\t/", "x"), r"\\?\C:\t/\x");
    assert_eq!(join_path(r"\\?\C:\a", r"..\b"), r"\\?\C:\b");
    assert_eq!(join_path(r"\\?\C:\a", r".\b"), r"\\?\C:\a\b");
    assert_eq!(join_path(r"\\?\C:\a\.", "b"), r"\\?\C:\a\.\b");
    assert_eq!(join_path(r"\\?\C:\a\b", r"\x"), r"\\?\C:\x");
    assert_eq!(join_path(r"\\?\C:", "x"), r"\\?\C:\x");
    assert_eq!(join_path(r"\\?\UNC\srv\sh\a", "x/y"), r"\\?\UNC\srv\sh\a\x\y");
    assert_eq!(join_path(r"\\?\C:\a", ""), r"\\?\C:\a\");
}

#[test]
fn paths_compare_by_components() {
    assert!(paths_equal(r"C:\a\b", r"C:\a\b"));
    assert!(paths_equal(r"C:\a\b", r"C:\a\b\"));
    assert!(paths_equal(r"C:\a\b", "C:/a//b"));
    assert!(paths_equal(r"C:\a\.\b", r"C:\a\b"));
    assert!(paths_equal(r"c:\a", r"C:\a"));
    assert!(!paths_equal(r"C:\a", r"C:\A"));
    assert!(!paths_equal(r"C:\a\..\b", r"C:\b"));
    assert!(!paths_equal(r"C:\a", r"D:\a"));
    assert!(!paths_equal(r"C:\a", r"C:a"));
    assert!(!paths_equal(r"C:\a", r"\\?\C:\a"));
    assert!(paths_equal("", ""));
    assert!(!paths_equal("a", ""));
}

#[test]
fn a_leading_dot_counts_only_in_a_relative_path() {
    assert!(!paths_equal(r".\a", "a"));
    assert!(paths_equal(r".\a", "./a"));
    assert!(paths_equal(r"C:.\a", "C:a"));
    assert!(paths_equal(r"a\.", "a"));
}

#[test]
fn unc_and_device_prefixes_imply_a_root() {
    assert!(paths_equal(r"\\srv\share", r"\\srv\share\"));
    assert!(paths_equal(r"\\srv\share\x", "//srv/share/x"));
    assert!(!paths_equal(r"\\srv\share\x", r"\\srv\other\x"));
    assert!(paths_equal(r"\\.\COM1", r"\\.\COM1\"));
}

#[test]
fn verbatim_paths_keep_dots_and_slashes() {
    assert!(!paths_equal(r"\\?\C:\a\.", r"\\?\C:\a"));
    assert!(!paths_equal(r"\\?\C:\a/b", r"\\?\C:\a\b"));
    assert!(paths_equal(r"\\?\c:\a", r"\\?\C:\a\"));
    assert!(paths_equal(r"\\?\UNC\srv\sh\x", r"\\?\UNC\srv\sh\x\"));
}
