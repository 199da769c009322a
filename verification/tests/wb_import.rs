use graybrowser::events::WbImportSummary;
use graybrowser::records::WbImportOutcome;
use graybrowser::wb_import::{
    count_link_results, find_tag_by_merge_key, import_summary, is_safe_identifier,
    legacy_tmp_file_name, resolve_file_state, safe_table_names, should_notify_progress,
    wb_import_outcome, FileProbe, ImportTally, LinkResult, PROGRESS_NOTIFY_INTERVAL,
    import_end_notices, ImportNotice, SlotCopyProgress,
};

#[test]
fn progress_is_reported_every_fifty_rows_and_at_the_end() {
    assert_eq!(PROGRESS_NOTIFY_INTERVAL, 50);
    let notified: Vec<u32> = (1..=120).filter(|&p| should_notify_progress(p, 120)).collect();
    assert_eq!(notified, vec![50, 100, 120]);
    assert!(should_notify_progress(3, 3));
}

#[test]
fn a_readable_file_registers_online_with_its_real_metadata() {
    let s = resolve_file_state(FileProbe::Hashed { file_size: 2048, mtime: 1_700_000_000, quick_hash: 1234567890123 });
    assert_eq!(s.status, "online");
    assert_eq!(s.quick_hash, "1234567890123");
    assert_eq!(s.mtime, 1_700_000_000);
    assert_eq!(s.file_size, 2048);

    let s = resolve_file_state(FileProbe::Hashed { file_size: 1, mtime: 2, quick_hash: u64::MAX });
    assert_eq!(s.quick_hash, u64::MAX.to_string());
}

#[test]
fn every_failure_converges_on_the_offline_placeholder() {
    for probe in [FileProbe::Missing, FileProbe::NoMtime, FileProbe::HashFailed] {
        let s = resolve_file_state(probe);
        assert_eq!(s.status, "offline");
        assert_eq!(s.quick_hash, "");
        assert_eq!(s.mtime, 0);
        assert_eq!(s.file_size, 0);
    }
}

#[test]
fn only_inserted_offline_rows_with_a_thumbnail_hash_are_linked() {
    let mut tally = ImportTally::new();
    tally.record(&WbImportOutcome::Inserted { tags_assigned: 2 }, true, "v1".into(), Some("h1".into()), "D:/a.mp4".into());
    tally.record(&WbImportOutcome::Inserted { tags_assigned: 1 }, false, "v2".into(), Some("h2".into()), "C:/b.mp4".into());
    tally.record(&WbImportOutcome::Inserted { tags_assigned: 0 }, true, "v3".into(), None, "D:/c.mp4".into());
    tally.record(&WbImportOutcome::Skipped, true, "v4".into(), Some("h4".into()), "D:/d.mp4".into());
    assert_eq!(tally.registered, 3);
    assert_eq!(tally.skipped, 1);
    assert_eq!(tally.tags_assigned, 3);
    assert_eq!(tally.offline_links.len(), 1);
    assert_eq!(tally.offline_links[0].video_id, "v1");
    assert_eq!(tally.offline_links[0].thumbnail_hash, "h1");
    assert_eq!(tally.offline_links[0].file_path, "D:/a.mp4");
}

#[test]
fn link_results_are_counted_per_video() {
    let results = vec![LinkResult::Linked, LinkResult::Failed, LinkResult::Linked];
    assert_eq!(count_link_results(&results), (2, 1));
    assert_eq!(count_link_results(&vec![]), (0, 0));
}

#[test]
fn the_summary_carries_the_tally_and_the_linking_counts() {
    let mut tally = ImportTally::new();
    tally.record(&WbImportOutcome::Inserted { tags_assigned: 4 }, false, "v".into(), None, "C:/v.mp4".into());
    let s = import_summary(&tally, 1, 9, 2, 3, 5);
    assert_eq!(
        s,
        WbImportSummary {
            registered: 1,
            skipped: 0,
            clamped_scores: 1,
            tags_assigned: 4,
            source_tag_count: 9,
            thumbnails_linked: 2,
            thumbnails_failed: 3,
            thumbnails_unmatched: 5,
        }
    );
}

#[test]
fn the_legacy_conversion_has_its_own_tmp_name() {
    assert_eq!(legacy_tmp_file_name("vid"), "vid.wb_legacy.webp.tmp");
}

#[test]
fn an_insert_that_created_no_row_is_a_skip() {
    assert_eq!(wb_import_outcome(0, 3), WbImportOutcome::Skipped);
    assert_eq!(wb_import_outcome(1, 3), WbImportOutcome::Inserted { tags_assigned: 3 });
}

#[test]
fn case_and_width_variant_tags_fold_onto_the_first_matching_tag() {
    let keys = vec!["anime".to_string(), "drama".to_string(), "anime".to_string()];
    assert_eq!(find_tag_by_merge_key(&keys, "anime"), Some(0));
    assert_eq!(find_tag_by_merge_key(&keys, "drama"), Some(1));
    assert_eq!(find_tag_by_merge_key(&keys, "comedy"), None);
    assert_eq!(find_tag_by_merge_key(&vec![], "anime"), None);
}

#[test]
fn only_plain_identifiers_may_be_spliced_into_a_query() {
    assert!(is_safe_identifier("movie"));
    assert!(is_safe_identifier("tag_2"));
    assert!(!is_safe_identifier(""));
    assert!(!is_safe_identifier("movie; DROP TABLE x"));
    assert!(!is_safe_identifier("m\u{00e9}"));
    assert_eq!(
        safe_table_names(vec!["movie".into(), "bad name".into(), "tag".into(), "x\"y".into()]),
        vec!["movie".to_string(), "tag".to_string()]
    );
}

/// Drives a slot copy with the given results; returns the slots offered
/// and how the link ended.
fn run_slot_copy(results: &[bool]) -> (Vec<usize>, (LinkResult, bool)) {
    let mut p = SlotCopyProgress::new();
    let mut offered = Vec::new();
    let mut results = results.iter();
    while let Some(slot) = p.next_slot() {
        offered.push(slot);
        p.record_copy(*results.next().unwrap());
    }
    (offered, p.finish())
}

#[test]
fn all_six_slot_copies_succeeding_links_the_thumbnail() {
    let (offered, end) = run_slot_copy(&[true; 6]);
    assert_eq!(offered, vec![0, 1, 2, 3, 4, 5]);
    assert_eq!(end, (LinkResult::Linked, false));
}

#[test]
fn slot_copying_stops_at_the_first_failure_and_removes_every_slot() {
    let (offered, end) = run_slot_copy(&[true, true, false, true, true, true]);
    assert_eq!(offered, vec![0, 1, 2]);
    assert_eq!(end, (LinkResult::Failed, true));
    let (offered, end) = run_slot_copy(&[false]);
    assert_eq!(offered, vec![0]);
    assert_eq!(end, (LinkResult::Failed, true));
}

#[test]
fn an_import_ends_with_failure_or_completion_then_one_catalog_change() {
    assert_eq!(import_end_notices(false), vec![ImportNotice::Failed]);
    assert_eq!(
        import_end_notices(true),
        vec![ImportNotice::Complete, ImportNotice::CatalogChanged]
    );
}
