use graybrowser::scan::{
    classify_discovered_file, decide_path_follow, inaccessible_dir_entry, outcome_changes_catalog,
    path_follow_outcome, plan_rehashed_known_path, plan_unchanged_known_path,
    rehash_collision_candidates, status_is_offline, FileClassification, KnownFileMeta,
    OfflineCandidate, PathFollowDecision, ProcessOutcome, ScanSummary,
};

#[test]
fn a_file_with_the_same_size_and_mtime_is_unchanged() {
    let known = KnownFileMeta { file_size: 10, mtime: Some(100) };
    assert_eq!(classify_discovered_file(10, 100, Some(known)), FileClassification::Unchanged);
    assert_eq!(classify_discovered_file(11, 100, Some(known)), FileClassification::NeedsRehash);
    assert_eq!(classify_discovered_file(10, 101, Some(known)), FileClassification::NeedsRehash);
}

#[test]
fn a_row_without_a_stored_mtime_is_never_unchanged() {
    let known = KnownFileMeta { file_size: 10, mtime: None };
    assert_eq!(classify_discovered_file(10, 0, Some(known)), FileClassification::NeedsRehash);
}

#[test]
fn an_unknown_path_is_a_new_candidate() {
    assert_eq!(classify_discovered_file(10, 100, None), FileClassification::NewCandidate);
}

#[test]
fn an_unchanged_known_path_reconnects_only_an_offline_row() {
    let plan = plan_unchanged_known_path("offline");
    assert!(plan.set_online);
    assert!(matches!(plan.outcome, ProcessOutcome::Reconciled));

    let plan = plan_unchanged_known_path("online");
    assert!(!plan.set_online);
    assert!(matches!(plan.outcome, ProcessOutcome::Unchanged));
}

#[test]
fn a_changed_known_path_is_refreshed_unless_its_hash_failed() {
    let plan = plan_rehashed_known_path(false, "offline");
    assert!(!plan.write_metadata && !plan.set_online);
    assert!(matches!(plan.outcome, ProcessOutcome::SkippedUnreadable));

    let plan = plan_rehashed_known_path(true, "offline");
    assert!(plan.write_metadata && plan.set_online);
    assert!(matches!(plan.outcome, ProcessOutcome::Reconciled));

    let plan = plan_rehashed_known_path(true, "online");
    assert!(plan.write_metadata && !plan.set_online);
    assert!(matches!(plan.outcome, ProcessOutcome::Reconciled));
}

#[test]
fn status_offline_is_matched_exactly() {
    assert!(status_is_offline("offline"));
    assert!(!status_is_offline("online"));
    assert!(!status_is_offline("Offline"));
    assert!(!status_is_offline(""));
}

#[test]
fn a_rehash_never_records_a_row_as_its_own_duplicate() {
    let candidates = vec!["r2".to_string(), "r1".to_string(), "r2".to_string(), "r3".to_string()];
    assert_eq!(
        rehash_collision_candidates(&candidates, "r2"),
        vec!["r1".to_string(), "r3".to_string()]
    );
    assert!(rehash_collision_candidates(&vec!["r2".to_string()], "r2").is_empty());
    assert!(rehash_collision_candidates(&vec![], "r2").is_empty());
}

fn candidate(id: &str, path: &str) -> OfflineCandidate {
    OfflineCandidate { video_id: id.to_string(), file_path: path.to_string() }
}

#[test]
fn path_follow_reactivates_the_earliest_candidate() {
    let candidates = vec![candidate("old-1", "D:/a.mp4"), candidate("old-2", "E:/a.mp4")];
    match decide_path_follow(&candidates, None) {
        PathFollowDecision::Reactivate { video_id } => assert_eq!(video_id, "old-1"),
        _ => panic!("expected a reactivation"),
    }
}

#[test]
fn path_follow_is_blocked_when_the_new_path_belongs_to_an_online_row() {
    let candidates = vec![candidate("old-1", "D:/a.mp4")];
    match decide_path_follow(&candidates, Some("online-9".to_string())) {
        PathFollowDecision::BlockedByCollision { video_id, colliding_video_id } => {
            assert_eq!(video_id, "old-1");
            assert_eq!(colliding_video_id, "online-9");
        }
        _ => panic!("expected a collision"),
    }
}

#[test]
fn no_candidate_means_a_new_registration() {
    assert!(matches!(decide_path_follow(&vec![], None), PathFollowDecision::NoMatch));
    assert!(matches!(
        path_follow_outcome(PathFollowDecision::NoMatch, true),
        ProcessOutcome::Registered
    ));
}

#[test]
fn a_failed_path_rewrite_leaves_the_file_unregistered() {
    let decision = PathFollowDecision::Reactivate { video_id: "old-1".to_string() };
    assert!(matches!(path_follow_outcome(decision, false), ProcessOutcome::SkippedUnreadable));
    let decision = PathFollowDecision::Reactivate { video_id: "old-1".to_string() };
    match path_follow_outcome(decision, true) {
        ProcessOutcome::PathFollowed { video_id } => assert_eq!(video_id, "old-1"),
        _ => panic!("expected a path follow"),
    }
}

#[test]
fn only_writing_outcomes_change_the_catalog() {
    assert!(outcome_changes_catalog(&ProcessOutcome::Registered));
    assert!(outcome_changes_catalog(&ProcessOutcome::Reconciled));
    assert!(outcome_changes_catalog(&ProcessOutcome::PathFollowed { video_id: "v".into() }));
    assert!(!outcome_changes_catalog(&ProcessOutcome::Unchanged));
    assert!(!outcome_changes_catalog(&ProcessOutcome::SkippedUnreadable));
    assert!(!outcome_changes_catalog(&ProcessOutcome::SkippedInvalidName { detected_char: '\u{2460}' }));
    assert!(!outcome_changes_catalog(&ProcessOutcome::BlockedByCollision {
        video_id: "a".into(),
        colliding_video_id: "b".into()
    }));
}

#[test]
fn the_summary_counts_each_outcome_in_its_own_field() {
    let mut s = ScanSummary::new();
    for o in [
        ProcessOutcome::Registered,
        ProcessOutcome::Registered,
        ProcessOutcome::Reconciled,
        ProcessOutcome::Unchanged,
        ProcessOutcome::SkippedInvalidName { detected_char: 'x' },
        ProcessOutcome::SkippedUnreadable,
        ProcessOutcome::PathFollowed { video_id: "v".into() },
        ProcessOutcome::BlockedByCollision { video_id: "a".into(), colliding_video_id: "b".into() },
    ] {
        s.record_scanned();
        s.record_outcome(&o);
    }
    s.record_went_offline(3);
    assert_eq!(
        s,
        ScanSummary {
            scanned: 8,
            registered: 2,
            reconciled: 1,
            unchanged: 1,
            skipped: 1,
            went_offline: 3,
            reactivated: 1,
            collisions: 1,
        }
    );
}

#[test]
fn an_inaccessible_directory_is_remembered_with_a_trailing_backslash() {
    assert_eq!(inaccessible_dir_entry(r"\\nas\share\locked"), r"\\nas\share\locked\");
}
