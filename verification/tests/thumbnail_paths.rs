use graybrowser::win_path::join_path;
use graybrowser::thumbnail_paths::{
    move_video_thumbnails, parse_flat_thumbnail_file_name, plan_thumbnail_moves,
    slot_path, slot_paths, thumbnail_data_url, thumbnail_data_urls, thumbnail_file_name,
    thumbnails_root, video_thumbnail_dir, DirectoryState, MoveProgress, THUMBNAILS_PER_VIDEO,
};

#[test]
fn parses_a_well_formed_flat_thumbnail_file_name() {
    assert_eq!(
        parse_flat_thumbnail_file_name("abc-123_0.webp"),
        Some(("abc-123".to_string(), 0))
    );
    assert_eq!(
        parse_flat_thumbnail_file_name("abc-123_5.webp"),
        Some(("abc-123".to_string(), 5))
    );
}

#[test]
fn ignores_a_tmp_leftover_file() {
    assert_eq!(parse_flat_thumbnail_file_name("abc-123_0.webp.tmp"), None);
}

#[test]
fn ignores_an_out_of_range_slot_number() {
    assert_eq!(parse_flat_thumbnail_file_name("abc-123_6.webp"), None);
}

#[test]
fn ignores_an_unrelated_file_name() {
    assert_eq!(parse_flat_thumbnail_file_name("readme.txt"), None);
    assert_eq!(parse_flat_thumbnail_file_name("abc-123.webp"), None);
    assert_eq!(parse_flat_thumbnail_file_name("_0.webp"), None);
}

#[test]
fn a_built_slot_file_name_parses_back_even_when_the_id_has_underscores() {
    for slot in 0..THUMBNAILS_PER_VIDEO {
        let name = thumbnail_file_name("a_b_c", slot);
        assert_eq!(name, format!("a_b_c_{slot}.webp"));
        assert_eq!(parse_flat_thumbnail_file_name(&name), Some(("a_b_c".to_string(), slot)));
    }
    assert_eq!(parse_flat_thumbnail_file_name("abc_x.webp"), None);
    assert_eq!(parse_flat_thumbnail_file_name("abc_.webp"), None);
}

#[test]
fn paths_are_joined_with_a_single_backslash() {
    assert_eq!(join_path(r"C:\data", "thumbnails"), r"C:\data\thumbnails");
    assert_eq!(join_path(r"C:\data\", "thumbnails"), r"C:\data\thumbnails");
    assert_eq!(join_path("C:/data/", "thumbnails"), "C:/data/thumbnails");
    assert_eq!(join_path("", "thumbnails"), "thumbnails");
    assert_eq!(thumbnails_root(r"C:\Users\u\AppData\GrayBrowser"), r"C:\Users\u\AppData\GrayBrowser\thumbnails");
    assert_eq!(video_thumbnail_dir(r"C:\t", "_unassigned"), r"C:\t\_unassigned");
}

#[test]
fn slot_paths_name_every_slot_in_order() {
    assert_eq!(slot_path(r"C:\t\f1", "vid", 3), r"C:\t\f1\vid_3.webp");
    let all = slot_paths(r"C:\t\f1", "vid");
    assert_eq!(all.len(), THUMBNAILS_PER_VIDEO);
    for (i, p) in all.iter().enumerate() {
        assert_eq!(*p, format!(r"C:\t\f1\vid_{i}.webp"));
    }
}

#[test]
fn moves_are_planned_only_for_existing_slots() {
    let exists = vec![true, false, true, true, false, false];
    let plan = plan_thumbnail_moves("v", r"C:\t\old", r"C:\t\new", &exists);
    let pairs: Vec<(String, String)> = plan.into_iter().map(|m| (m.from, m.to)).collect();
    assert_eq!(
        pairs,
        vec![
            (r"C:\t\old\v_0.webp".to_string(), r"C:\t\new\v_0.webp".to_string()),
            (r"C:\t\old\v_2.webp".to_string(), r"C:\t\new\v_2.webp".to_string()),
            (r"C:\t\old\v_3.webp".to_string(), r"C:\t\new\v_3.webp".to_string()),
        ]
    );
}

#[test]
fn a_move_between_the_same_directory_is_a_no_op() {
    let exists = vec![true; THUMBNAILS_PER_VIDEO];
    assert!(plan_thumbnail_moves("v", r"C:\t\same", r"C:\t\same", &exists).is_empty());
    assert!(move_video_thumbnails(r"C:\t", "f1", "f1", "v", &exists).is_empty());
}

#[test]
fn move_video_thumbnails_moves_all_six_slots_between_folder_subdirs() {
    let exists = vec![true; THUMBNAILS_PER_VIDEO];
    let plan = move_video_thumbnails(r"C:\t", "f1", "f2", "v", &exists);
    assert_eq!(plan.len(), THUMBNAILS_PER_VIDEO);
    for (i, m) in plan.iter().enumerate() {
        assert_eq!(m.from, format!(r"C:\t\f1\v_{i}.webp"));
        assert_eq!(m.to, format!(r"C:\t\f2\v_{i}.webp"));
    }
    let none = vec![false; THUMBNAILS_PER_VIDEO];
    assert!(move_video_thumbnails(r"C:\t", "f1", "f2", "v", &none).is_empty());
}

#[test]
fn a_slot_file_becomes_a_base64_webp_data_url() {
    assert_eq!(
        thumbnail_data_url(b"fake webp bytes 0"),
        "data:image/webp;base64,ZmFrZSB3ZWJwIGJ5dGVzIDA="
    );
    assert_eq!(thumbnail_data_url(b""), "data:image/webp;base64,");
    assert_eq!(thumbnail_data_url(b"ab"), "data:image/webp;base64,YWI=");
}

#[test]
fn six_slot_files_become_data_urls_in_slot_order() {
    let slots: Vec<Vec<u8>> = (0..THUMBNAILS_PER_VIDEO)
        .map(|i| format!("fake webp bytes {i}").into_bytes())
        .collect();
    let urls = thumbnail_data_urls(&slots);
    assert_eq!(urls.len(), THUMBNAILS_PER_VIDEO);
    assert_eq!(urls[0], "data:image/webp;base64,ZmFrZSB3ZWJwIGJ5dGVzIDA=");
    for (i, url) in urls.iter().enumerate() {
        assert_eq!(*url, thumbnail_data_url(format!("fake webp bytes {i}").as_bytes()));
    }
    assert_ne!(urls[0], urls[1]);
}

#[test]
fn thumbnails_root_on_a_bare_drive_adds_no_separator() {
    assert_eq!(thumbnails_root("C:"), "C:thumbnails");
    assert_eq!(thumbnails_root(r"C:\"), r"C:\thumbnails");
}

#[test]
fn slot_path_in_a_bare_drive_directory() {
    assert_eq!(slot_path("d:", "vid-1", 3), "d:vid-1_3.webp");
    assert_eq!(slot_path("d", "vid-1", 3), r"d\vid-1_3.webp");
}

#[test]
fn slot_path_in_a_verbatim_directory() {
    assert_eq!(slot_path(r"\\?\C:\t\f1", "vid", 0), r"\\?\C:\t\f1\vid_0.webp");
    assert_eq!(slot_path(r"\\?\C:\t\.", "vid", 0), r"\\?\C:\t\.\vid_0.webp");
}

#[test]
fn directories_that_are_the_same_path_plan_no_moves() {
    let exists = vec![true; THUMBNAILS_PER_VIDEO];
    assert!(plan_thumbnail_moves("v", r"C:\t\f", r"C:\t\f\", &exists).is_empty());
    assert!(plan_thumbnail_moves("v", r"C:\t\f", "c:/t//f", &exists).is_empty());
    assert!(plan_thumbnail_moves("v", r"C:\t\.\f", r"C:\t\f", &exists).is_empty());
    assert!(move_video_thumbnails(r"C:\t", "f1", r"f1\", "v", &exists).is_empty());
    assert_eq!(plan_thumbnail_moves("v", r"C:\t\f", r"C:\t\F", &exists).len(), THUMBNAILS_PER_VIDEO);
    assert_eq!(plan_thumbnail_moves("v", r"C:\t\f", r"C:\t\..\t\f", &exists).len(), THUMBNAILS_PER_VIDEO);
}

#[test]
fn base64_groups_and_padding() {
    let url = |b: &[u8]| thumbnail_data_url(b)["data:image/webp;base64,".len()..].to_string();
    assert_eq!(url(b"Man"), "TWFu");
    assert_eq!(url(b"Ma"), "TWE=");
    assert_eq!(url(b"M"), "TQ==");
    assert_eq!(url(&[0xfb, 0xff]), "+/8=");
    assert_eq!(url(b"hello world"), "aGVsbG8gd29ybGQ=");
}

/// Drives a move plan of `total` moves with the given directory and move
/// results; returns the moves offered and the outcome.
fn run_moves(total: usize, created: bool, moved: &[bool]) -> (bool, Vec<usize>, bool) {
    let mut p = MoveProgress::new(total);
    let asked_for_directory = p.needs_directory();
    if asked_for_directory {
        p.record_directory(created);
    }
    let mut offered = Vec::new();
    let mut moved = moved.iter();
    while let Some(i) = p.next_move() {
        offered.push(i);
        p.record_move(*moved.next().unwrap());
    }
    (asked_for_directory, offered, p.outcome())
}

#[test]
fn every_move_is_attempted_even_after_a_failure() {
    assert_eq!(run_moves(3, true, &[true, true, true]), (true, vec![0, 1, 2], true));
    assert_eq!(run_moves(3, true, &[false, true, true]), (true, vec![0, 1, 2], false));
    assert_eq!(run_moves(3, true, &[true, true, false]), (true, vec![0, 1, 2], false));
}

#[test]
fn a_directory_that_cannot_be_created_moves_nothing_and_fails() {
    assert_eq!(run_moves(2, false, &[]), (true, vec![], false));
    let mut p = MoveProgress::new(2);
    p.record_directory(false);
    assert_eq!(p.directory, DirectoryState::Failed);
}

#[test]
fn an_empty_plan_needs_no_directory_and_succeeds() {
    assert_eq!(run_moves(0, false, &[]), (false, vec![], true));
}
