use graybrowser::dedup::{DuplicateGroup, DuplicateGroupKind};
use graybrowser::events::{
    CatalogNotifier, DedupNotifier, FakeCatalogNotifier, FakeDedupNotifier, FakeWbImportNotifier,
    WbImportNotifier, WbImportSummary,
};

#[test]
fn the_fake_catalog_notifier_counts_its_calls() {
    let mut n = FakeCatalogNotifier::new();
    assert_eq!(n.calls(), 0);
    n.notify_changed();
    n.notify_changed();
    assert_eq!(n.calls(), 2);
}

#[test]
fn the_fake_import_notifier_records_every_notification_in_order() {
    let mut n = FakeWbImportNotifier::new();
    n.notify_progress(50, 120);
    n.notify_progress(100, 120);
    let summary = WbImportSummary { registered: 3, ..WbImportSummary::default() };
    n.notify_complete(&summary);
    n.notify_failed("could not read movies");
    assert_eq!(n.progress_calls, vec![(50, 120), (100, 120)]);
    assert_eq!(n.complete_calls, vec![summary]);
    assert_eq!(n.failed_calls, vec!["could not read movies".to_string()]);
}

#[test]
fn the_fake_dedup_notifier_records_group_counts() {
    let mut n = FakeDedupNotifier::new();
    n.notify_updated(&[]);
    n.notify_updated(&[DuplicateGroup { kind: DuplicateGroupKind::QuickHashConfirmed, members: vec![] }]);
    assert_eq!(n.updated_calls, vec![0, 1]);
}
