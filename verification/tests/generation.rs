use graybrowser::generation::{
    generation_verdict, is_eligible_for_automatic_retry, list_videos_missing_metadata,
    list_videos_missing_thumbnails, thumbnail_resume, tmp_slot_file_name, worker_count,
    MetadataCandidate, ThumbnailCandidate, ThumbnailQueueHandle, ThumbnailResume,
    MAX_GENERATION_ATTEMPTS,
};

#[test]
fn a_video_is_retried_automatically_exactly_three_times() {
    assert_eq!(MAX_GENERATION_ATTEMPTS, 3);
    assert!(is_eligible_for_automatic_retry(0));
    assert!(is_eligible_for_automatic_retry(2));
    assert!(!is_eligible_for_automatic_retry(3));
    assert!(!is_eligible_for_automatic_retry(4));
}

#[test]
fn pausing_the_queue_is_read_back() {
    let mut q = ThumbnailQueueHandle::default();
    assert!(!q.is_paused());
    q.set_paused(true);
    assert!(q.is_paused());
    q.set_paused(false);
    assert!(!q.is_paused());
}

#[test]
fn workers_never_outnumber_the_pending_videos() {
    assert_eq!(worker_count(4, 10), 4);
    assert_eq!(worker_count(4, 2), 2);
    assert_eq!(worker_count(4, 0), 0);
}

#[test]
fn the_filesystem_decides_whether_a_video_needs_thumbnails() {
    assert_eq!(thumbnail_resume(true, true, 0), ThumbnailResume::Ready);
    assert_eq!(thumbnail_resume(true, false, 9), ThumbnailResume::BackfillReady);
    assert_eq!(thumbnail_resume(false, true, 0), ThumbnailResume::Generate);
    assert_eq!(thumbnail_resume(false, false, 2), ThumbnailResume::Generate);
    assert_eq!(thumbnail_resume(false, false, 3), ThumbnailResume::Exhausted);
}

fn thumb(id: &str, attempts: i64, ready: bool) -> ThumbnailCandidate {
    ThumbnailCandidate {
        id: id.to_string(),
        file_path: format!("C:/v/{id}.mp4"),
        thumbnail_attempts: attempts,
        thumbnail_ready: ready,
    }
}

#[test]
fn list_videos_missing_thumbnails_returns_only_videos_without_all_six_thumbnail_files() {
    let rows = vec![
        thumb("complete", 0, true),
        thumb("stale-flag", 0, false),
        thumb("missing", 1, false),
        thumb("exhausted", 3, false),
        thumb("missing-but-flagged", 0, true),
    ];
    let complete = vec![true, true, false, false, false];
    let work = list_videos_missing_thumbnails(&rows, &complete);
    assert_eq!(
        work.missing,
        vec![
            ("missing".to_string(), "C:/v/missing.mp4".to_string()),
            ("missing-but-flagged".to_string(), "C:/v/missing-but-flagged.mp4".to_string()),
        ]
    );
    assert_eq!(work.backfill, vec!["stale-flag".to_string()]);
}

#[test]
fn metadata_probes_skip_videos_whose_budget_is_spent() {
    let rows = vec![
        MetadataCandidate { id: "a".into(), file_path: "C:/a.mp4".into(), metadata_attempts: 0 },
        MetadataCandidate { id: "b".into(), file_path: "C:/b.mp4".into(), metadata_attempts: 3 },
        MetadataCandidate { id: "c".into(), file_path: "C:/c.mp4".into(), metadata_attempts: 2 },
    ];
    assert_eq!(
        list_videos_missing_metadata(&rows),
        vec![("a".to_string(), "C:/a.mp4".to_string()), ("c".to_string(), "C:/c.mp4".to_string())]
    );
}

#[test]
fn a_slot_is_extracted_to_a_tmp_file_first() {
    assert_eq!(tmp_slot_file_name("vid", 4), "vid_4.webp.tmp");
}

#[test]
fn generation_succeeds_only_when_every_slot_is_extracted() {
    let v = generation_verdict(&vec![true; 6]);
    assert!(v.succeeded && v.mark_ready && !v.increment_attempts);
    assert_eq!(v.extracted, 6);

    let v = generation_verdict(&vec![true, true, false, true, true, true]);
    assert!(!v.succeeded && !v.mark_ready && v.increment_attempts);
    assert_eq!(v.extracted, 2);

    let v = generation_verdict(&vec![false; 6]);
    assert!(!v.succeeded);
    assert_eq!(v.extracted, 0);
}
