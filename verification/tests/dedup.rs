use graybrowser::dedup::{
    collision_group_kind, hydrate_members, known_full_hash, DuplicateGroup, DuplicateGroupKind,
    DuplicateGroupMember, DuplicateGroupsState,
};
use graybrowser::records::VideoRow;

fn row(id: &str, full_hash: Option<&str>) -> VideoRow {
    VideoRow {
        id: id.to_string(),
        file_path: format!("C:/videos/{id}.mp4"),
        file_name: format!("{id}.mp4"),
        file_size: 100,
        duration: None,
        quick_hash: "q".to_string(),
        full_hash: full_hash.map(|h| h.to_string()),
        status: "online".to_string(),
        rating: 0,
        created_at: "2026-01-01 00:00:00".to_string(),
        mtime: Some(5),
        thumbnail_ready: false,
    }
}

#[test]
fn duplicate_groups_state_get_reflects_the_last_set_snapshot() {
    let mut state = DuplicateGroupsState::default();
    assert!(state.get().is_empty());

    state.set(vec![DuplicateGroup {
        kind: DuplicateGroupKind::QuickHashConfirmed,
        members: vec![],
    }]);
    assert_eq!(state.get().len(), 1);
}

#[test]
fn a_later_set_replaces_the_earlier_snapshot_entirely() {
    let mut state = DuplicateGroupsState::new();
    state.set(vec![
        DuplicateGroup { kind: DuplicateGroupKind::QuickHashConfirmed, members: vec![] },
        DuplicateGroup { kind: DuplicateGroupKind::PathCollisionConfirmed, members: vec![] },
    ]);
    state.set(vec![DuplicateGroup {
        kind: DuplicateGroupKind::PathCollisionUnconfirmed,
        members: vec![DuplicateGroupMember::from(row("a", None))],
    }]);
    let groups = state.get();
    assert_eq!(groups.len(), 1);
    assert_eq!(groups[0].kind, DuplicateGroupKind::PathCollisionUnconfirmed);
    assert_eq!(groups[0].members.len(), 1);
    assert_eq!(groups[0].members[0].video_id, "a");
}

#[test]
fn a_collision_pair_is_confirmed_only_when_both_full_hashes_are_known_and_equal() {
    let h1 = Some("abc".to_string());
    let h2 = Some("abc".to_string());
    let h3 = Some("xyz".to_string());
    assert_eq!(collision_group_kind(&h1, &h2), DuplicateGroupKind::PathCollisionConfirmed);
    assert_eq!(collision_group_kind(&h1, &h3), DuplicateGroupKind::PathCollisionUnconfirmed);
    assert_eq!(collision_group_kind(&h1, &None), DuplicateGroupKind::PathCollisionUnconfirmed);
    assert_eq!(collision_group_kind(&None, &None), DuplicateGroupKind::PathCollisionUnconfirmed);
}

#[test]
fn hydrating_drops_vanished_rows_and_keeps_the_rest_in_order() {
    let members = hydrate_members(vec![Some(row("a", None)), None, Some(row("c", Some("f")))]);
    assert_eq!(members.len(), 2);
    assert_eq!(members[0].video_id, "a");
    assert_eq!(members[0].file_path, "C:/videos/a.mp4");
    assert_eq!(members[0].file_name, "a.mp4");
    assert_eq!(members[0].file_size, 100);
    assert_eq!(members[0].status, "online");
    assert_eq!(members[0].created_at, "2026-01-01 00:00:00");
    assert_eq!(members[1].video_id, "c");
}

#[test]
fn an_already_recorded_full_hash_is_reused() {
    assert_eq!(known_full_hash(&row("a", Some("f1"))), Some("f1".to_string()));
    assert_eq!(known_full_hash(&row("b", None)), None);
}
