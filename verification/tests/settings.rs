use graybrowser::settings::{
    nas_poll_interval_from_setting, nas_poll_interval_setting_value, rating_error_message,
    remaining_folders, renamed_folders, validate_rating, validate_rename_target, version_of,
    watch_folders_from_setting, watch_folders_setting_value, RenameRejection, SettingsError,
    DEFAULT_NAS_POLL_INTERVAL_SECS,
};

/// Whether two folder paths are the same folder or one lies inside the
/// other (a shared string prefix alone does not count).
fn folder_conflict(a: &str, b: &str) -> bool {
    fn is_under(child: &str, parent: &str) -> bool {
        child.len() > parent.len()
            && child.starts_with(parent)
            && matches!(child.as_bytes()[parent.len()], b'\\' | b'/')
    }
    a == b || is_under(a, b) || is_under(b, a)
}

fn check_rename(existing: &[String], old: &str, new: &str) -> Result<(), RenameRejection> {
    let conflicts: Vec<bool> = existing.iter().map(|f| folder_conflict(f, new)).collect();
    validate_rename_target(&existing.to_vec(), old, &conflicts)
}

#[test]
fn rejects_renaming_a_folder_that_is_not_registered() {
    let existing = vec![r"C:\Videos".to_string()];
    assert!(check_rename(&existing, r"C:\NotWatched", r"D:\Movies").is_err());
}

#[test]
fn rejects_a_new_path_that_exactly_duplicates_another_watch_folder() {
    let existing = vec![r"C:\Videos".to_string(), r"D:\Movies".to_string()];
    assert!(check_rename(&existing, r"C:\Videos", r"D:\Movies").is_err());
}

#[test]
fn rejects_a_new_path_that_is_a_child_of_another_watch_folder() {
    let existing = vec![r"C:\Videos".to_string(), r"D:\Movies".to_string()];
    assert!(check_rename(&existing, r"C:\Videos", r"D:\Movies\Sub").is_err());
}

#[test]
fn rejects_a_new_path_that_is_a_parent_of_another_watch_folder() {
    let existing = vec![r"C:\Videos".to_string(), r"D:\Movies\Sub".to_string()];
    assert!(check_rename(&existing, r"C:\Videos", r"D:\Movies").is_err());
}

#[test]
fn allows_a_new_path_that_only_shares_a_string_prefix_with_another_watch_folder() {
    let existing = vec![r"C:\Videos".to_string(), r"D:\Movies".to_string()];
    assert!(check_rename(&existing, r"C:\Videos", r"D:\Movies2").is_ok());
}

#[test]
fn allows_renaming_a_folder_to_its_own_unchanged_path() {
    let existing = vec![r"C:\Videos".to_string()];
    assert!(check_rename(&existing, r"C:\Videos", r"C:\Videos").is_ok());
}

#[test]
fn allows_an_otherwise_non_conflicting_rename() {
    let existing = vec![r"C:\Videos".to_string(), r"D:\Movies".to_string()];
    assert!(check_rename(&existing, r"C:\Videos", r"E:\Renamed").is_ok());
}

#[test]
fn rename_rejections_name_their_reason() {
    let existing = vec![r"C:\Videos".to_string(), r"D:\Movies".to_string()];
    assert_eq!(
        validate_rename_target(&existing, r"C:\Nope", &vec![false, false]),
        Err(RenameRejection::NotRegistered)
    );
    assert_eq!(
        validate_rename_target(&existing, r"C:\Videos", &vec![false, true]),
        Err(RenameRejection::ConflictsWithAnotherFolder)
    );
    assert_eq!(validate_rename_target(&existing, r"C:\Videos", &vec![true, false]), Ok(()));
}

#[test]
fn renaming_replaces_only_the_old_folder_in_place() {
    let folders = vec![r"C:\A".to_string(), r"C:\B".to_string(), r"C:\C".to_string()];
    assert_eq!(
        renamed_folders(&folders, r"C:\B", r"E:\B2"),
        vec![r"C:\A".to_string(), r"E:\B2".to_string(), r"C:\C".to_string()]
    );
    assert_eq!(renamed_folders(&folders, r"C:\Z", r"E:\Z"), folders);
}

#[test]
fn removing_a_folder_keeps_the_others_in_order() {
    let folders = vec![r"C:\A".to_string(), r"C:\B".to_string(), r"C:\C".to_string()];
    assert_eq!(remaining_folders(&folders, r"C:\B"), vec![r"C:\A".to_string(), r"C:\C".to_string()]);
    assert_eq!(remaining_folders(&folders, r"C:\Z"), folders);
    assert!(remaining_folders(&vec![r"C:\A".to_string()], r"C:\A").is_empty());
}

#[test]
fn watch_folders_read_back_what_was_written() {
    let folders = vec![r"C:\Videos".to_string(), "D:/Movies \"new\"".to_string()];
    let stored = watch_folders_setting_value(&folders).unwrap();
    assert_eq!(stored, r#"["C:\\Videos","D:/Movies \"new\""]"#);
    assert_eq!(watch_folders_from_setting(Some(&stored)), Ok(folders));
}

#[test]
fn an_unset_watch_folder_setting_is_an_empty_list() {
    assert_eq!(watch_folders_from_setting(None), Ok(vec![]));
    assert_eq!(watch_folders_from_setting(Some("[]")), Ok(vec![]));
}

#[test]
fn a_malformed_watch_folder_setting_is_an_error() {
    assert_eq!(
        watch_folders_from_setting(Some("not json")),
        Err(SettingsError::InvalidWatchFolders)
    );
    assert_eq!(
        watch_folders_from_setting(Some("[1, 2]")),
        Err(SettingsError::InvalidWatchFolders)
    );
}

#[test]
fn the_poll_interval_defaults_to_ten_minutes_and_reads_back_what_was_written() {
    assert_eq!(DEFAULT_NAS_POLL_INTERVAL_SECS, 600);
    assert_eq!(nas_poll_interval_from_setting(None), Ok(600));
    for secs in [0i64, 7, 600, 86_400, -5, i64::MAX, i64::MIN] {
        let stored = nas_poll_interval_setting_value(secs);
        assert_eq!(stored, secs.to_string());
        assert_eq!(nas_poll_interval_from_setting(Some(&stored)), Ok(secs));
    }
}

#[test]
fn the_poll_interval_is_parsed_like_str_parse() {
    assert_eq!(nas_poll_interval_from_setting(Some("+30")), Ok(30));
    assert_eq!(nas_poll_interval_from_setting(Some("-0")), Ok(0));
    assert_eq!(nas_poll_interval_from_setting(Some("007")), Ok(7));
    for bad in ["", "-", "+", "1.5", " 5", "5 ", "ten", "9223372036854775808", "-9223372036854775809"] {
        assert_eq!(
            nas_poll_interval_from_setting(Some(bad)),
            Err(SettingsError::InvalidPollInterval),
            "{bad:?} must be rejected"
        );
    }
    assert_eq!(nas_poll_interval_from_setting(Some("9223372036854775807")), Ok(i64::MAX));
    assert_eq!(nas_poll_interval_from_setting(Some("-9223372036854775808")), Ok(i64::MIN));
}

#[test]
fn ratings_from_zero_to_five_are_accepted() {
    for r in 0u8..=5 {
        assert_eq!(validate_rating(r), Ok(r));
    }
    assert_eq!(validate_rating(6), Err(6));
    assert_eq!(validate_rating(255), Err(255));
    assert_eq!(rating_error_message(6), "rating 6 is out of range (must be 0-5)");
    assert_eq!(rating_error_message(255), "rating 255 is out of range (must be 0-5)");
}

#[test]
fn the_version_line_is_the_first_line_of_a_successful_run() {
    assert_eq!(
        version_of(true, "ffmpeg version 7.0 Copyright\r\nbuilt with gcc\n"),
        Some("ffmpeg version 7.0 Copyright".to_string())
    );
    assert_eq!(version_of(true, "only line"), Some("only line".to_string()));
    assert_eq!(version_of(true, "\nsecond"), Some(String::new()));
    assert_eq!(version_of(true, ""), None);
    assert_eq!(version_of(false, "ffmpeg version 7.0\n"), None);
    let text = "a\r\nb";
    assert_eq!(version_of(true, text), text.lines().next().map(str::to_string));
}
