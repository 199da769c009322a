use graybrowser::watch::{
    decide_removal_outcome, nas_pass_end, poll_interval_secs, route_folders, watch_action,
    DriveKind, NasPassEnd, NasPollHandle, PollTimer, WatchAction, WatchEventKind,
};

#[test]
fn reconfigure_routes_local_and_removable_to_watching_and_network_to_polling() {
    let folders = vec![
        r"C:\Local".to_string(),
        r"\\nas\share".to_string(),
        r"E:\Usb".to_string(),
    ];
    let kinds = vec![Some(DriveKind::Local), Some(DriveKind::Network), Some(DriveKind::Removable)];
    let routing = route_folders(&folders, &kinds);
    assert_eq!(routing.local, vec![r"C:\Local".to_string(), r"E:\Usb".to_string()]);
    assert_eq!(routing.polled, vec![r"\\nas\share".to_string()]);
}

#[test]
fn reconfigure_falls_back_to_polling_when_drive_type_is_unknown_or_undetectable() {
    let folders = vec![r"X:\Odd".to_string(), r"Y:\Broken".to_string()];
    let kinds = vec![Some(DriveKind::Unknown), None];
    let routing = route_folders(&folders, &kinds);
    assert!(routing.local.is_empty());
    assert_eq!(routing.polled, folders);
}

#[test]
fn events_on_non_video_files_are_ignored() {
    assert_eq!(watch_action(WatchEventKind::Created, false), WatchAction::Ignore);
    assert_eq!(watch_action(WatchEventKind::Removed, false), WatchAction::Ignore);
    assert_eq!(watch_action(WatchEventKind::Created, true), WatchAction::Process);
    assert_eq!(watch_action(WatchEventKind::Modified, true), WatchAction::Process);
    assert_eq!(watch_action(WatchEventKind::Removed, true), WatchAction::CheckRemoval);
}

#[test]
fn a_removed_online_video_goes_offline_and_an_offline_one_stays() {
    assert_eq!(decide_removal_outcome("online"), Some("offline".to_string()));
    assert_eq!(decide_removal_outcome("offline"), None);
}

#[test]
fn a_stopped_poller_stays_stopped() {
    let mut h = NasPollHandle::new();
    assert!(!h.is_stopped());
    h.stop();
    assert!(h.is_stopped());
    h.stop();
    assert!(h.is_stopped());
}

#[test]
fn a_negative_interval_setting_means_no_wait() {
    assert_eq!(poll_interval_secs(600), 600);
    assert_eq!(poll_interval_secs(0), 0);
    assert_eq!(poll_interval_secs(-1), 0);
}

#[test]
fn the_poll_timer_fires_on_every_interval_th_second() {
    let mut t = PollTimer::new(3);
    let fired: Vec<bool> = (0..7).map(|_| t.tick()).collect();
    assert_eq!(fired, vec![false, false, true, false, false, true, false]);
    assert_eq!(t.elapsed_secs, 1);

    let mut zero = PollTimer::new(0);
    assert!(zero.tick());
    assert!(zero.tick());
}

#[test]
fn a_stopped_pass_skips_the_missing_video_check() {
    assert_eq!(nas_pass_end(false, false), NasPassEnd::ApplyMissing);
    assert_eq!(nas_pass_end(true, false), NasPassEnd::Abandon);
    assert_eq!(nas_pass_end(false, true), NasPassEnd::Abandon);
}
