use chacrab::errors::ChacrabError;
use chacrab::memory::MemoryRepository;
use chacrab::models::{SyncTombstone, Timestamp, VaultItem, VaultItemType};
use chacrab::repository::VaultRepository;
use chacrab::sync_engine::{bytes_not_below, SyncEngine, SyncReport, SyncState};

fn at(secs: i64) -> Timestamp {
    Timestamp::new(secs, 0).expect("instant in range")
}

fn build_item(id: u128, title: &str, updated_at: Timestamp, sync_version: u64) -> VaultItem {
    VaultItem {
        id,
        item_type: VaultItemType::Password,
        title: title.to_owned(),
        username: None,
        url: None,
        encrypted_data: vec![1, 2, 3],
        nonce: [7u8; 12],
        sync_version,
        created_at: updated_at,
        updated_at,
    }
}

fn titles(repo: &MemoryRepository) -> Vec<(u128, String, u64)> {
    let mut found: Vec<(u128, String, u64)> = repo
        .list_items()
        .expect("lists")
        .into_iter()
        .map(|item| (item.id, item.title, item.sync_version))
        .collect();
    found.sort();
    found
}

#[test]
fn sync_reports_uploads_and_downloads() {
    let mut local = MemoryRepository::new();
    let mut remote = MemoryRepository::new();
    let now = 1_700_000_000;
    let same_id = 11u128;

    let local_newer = build_item(same_id, "local newer", at(now + 60), 2);
    let remote_older = build_item(same_id, "remote older", at(now), 1);
    let local_only = build_item(12, "local only", at(now), 1);
    let remote_only = build_item(13, "remote only", at(now), 1);

    local.upsert_item(&local_newer).expect("local upsert");
    local.upsert_item(&local_only).expect("local upsert");
    remote.upsert_item(&remote_older).expect("remote upsert");
    remote.upsert_item(&remote_only).expect("remote upsert");

    let report = SyncEngine::sync_bidirectional(&mut local, &mut remote).expect("sync should succeed");

    assert_eq!(report.uploaded, 2);
    assert_eq!(report.downloaded, 1);
    assert_eq!(report.conflicts, 1);
    assert_eq!(report.replay_blocked, 1);
    assert_eq!(report.conflict_ids, vec![same_id]);
    assert_eq!(local.list_items().expect("local list").len(), 3);
    assert_eq!(remote.list_items().expect("remote list").len(), 3);
    let expected = vec![
        (11u128, "local newer".to_owned(), 2u64),
        (12, "local only".to_owned(), 1),
        (13, "remote only".to_owned(), 1),
    ];
    assert_eq!(titles(&local), expected);
    assert_eq!(titles(&remote), expected);
}

#[test]
fn tombstone_wins_tie_and_deletes_item() {
    let mut local = MemoryRepository::new();
    let mut remote = MemoryRepository::new();
    let now = at(1_700_000_000);
    let same_id = 21u128;

    let remote_item = build_item(same_id, "remote live", now, 3);
    let local_tombstone = SyncTombstone { id: same_id, deleted_at: now, sync_version: 3 };

    remote.upsert_item(&remote_item).expect("remote upsert");
    local.upsert_tombstone(&local_tombstone).expect("local tombstone upsert");

    let report = SyncEngine::sync_bidirectional(&mut local, &mut remote).expect("sync should succeed");

    assert_eq!(report.conflicts, 1);
    assert_eq!(report.uploaded, 1);
    assert_eq!(report.downloaded, 0);
    assert_eq!(report.replay_blocked, 0);
    assert_eq!(remote.list_items().expect("remote list").len(), 0);
    assert_eq!(local.list_items().expect("local list").len(), 0);
    assert_eq!(remote.list_tombstones().expect("remote tombstones"), vec![local_tombstone]);
    assert_eq!(local.list_tombstones().expect("local tombstones"), vec![local_tombstone]);
}

#[test]
fn newer_remote_version_downloads_without_replay_block() {
    let mut local = MemoryRepository::new();
    let mut remote = MemoryRepository::new();
    let now = 1_700_000_000;
    let same_id = 31u128;

    let local_item = build_item(same_id, "local", at(now + 120), 1);
    let remote_item = build_item(same_id, "remote", at(now), 2);

    local.upsert_item(&local_item).expect("local upsert");
    remote.upsert_item(&remote_item).expect("remote upsert");

    let report = SyncEngine::sync_bidirectional(&mut local, &mut remote).expect("sync should succeed");

    assert_eq!(report.downloaded, 1);
    assert_eq!(report.uploaded, 0);
    assert_eq!(report.replay_blocked, 0);
    assert_eq!(report.conflicts, 1);
    let final_local = local.get_item(same_id).expect("final local item");
    assert_eq!(final_local.sync_version, 2);
    assert_eq!(final_local.title, "remote");
}

#[test]
fn second_run_reports_nothing() {
    let mut local = MemoryRepository::new();
    let mut remote = MemoryRepository::new();
    local.upsert_item(&build_item(1, "a", at(10), 2)).expect("upsert");
    local.upsert_item(&build_item(2, "b", at(10), 1)).expect("upsert");
    local
        .upsert_tombstone(&SyncTombstone { id: 3, deleted_at: at(50), sync_version: 4 })
        .expect("upsert");
    remote.upsert_item(&build_item(1, "a old", at(5), 1)).expect("upsert");
    remote.upsert_item(&build_item(3, "c", at(20), 3)).expect("upsert");
    remote.upsert_item(&build_item(4, "d", at(20), 1)).expect("upsert");

    let first = SyncEngine::sync_bidirectional(&mut local, &mut remote).expect("first run");
    assert_eq!(first.uploaded, 3);
    assert_eq!(first.downloaded, 1);
    assert_eq!(first.conflicts, 2);
    assert_eq!(first.replay_blocked, 2);

    let second = SyncEngine::sync_bidirectional(&mut local, &mut remote).expect("second run");
    assert_eq!(second.uploaded, 0);
    assert_eq!(second.downloaded, 0);
    assert_eq!(second.conflicts, 0);
    assert_eq!(second.replay_blocked, 0);
    assert!(second.conflict_ids.is_empty());
    assert_eq!(titles(&local), titles(&remote));
    assert_eq!(
        local.list_tombstones().expect("lists"),
        remote.list_tombstones().expect("lists")
    );
    assert!(local.get_item(3).is_err());
}

#[test]
fn sync_rejects_empty_ciphertext_and_writes_nothing() {
    let mut local = MemoryRepository::new();
    let mut remote = MemoryRepository::new();
    let mut broken = build_item(41, "broken", at(10), 1);
    broken.encrypted_data = Vec::new();
    local.upsert_item(&build_item(42, "fine", at(10), 1)).expect("upsert");
    remote.upsert_item(&broken).expect("upsert");

    let result = SyncEngine::sync_bidirectional(&mut local, &mut remote);
    match result {
        Err(ChacrabError::Config(reason)) => {
            assert_eq!(reason, "sync rejected invalid encrypted payload")
        }
        other => panic!("expected a configuration error, got {:?}", other),
    }
    assert_eq!(titles(&local), vec![(42u128, "fine".to_owned(), 1u64)]);
    assert_eq!(titles(&remote), vec![(41u128, "broken".to_owned(), 1u64)]);

    let mut swapped_local = MemoryRepository::new();
    let mut swapped_remote = MemoryRepository::new();
    swapped_local.upsert_item(&broken).expect("upsert");
    assert!(matches!(
        SyncEngine::sync_bidirectional(&mut swapped_local, &mut swapped_remote),
        Err(ChacrabError::Config(_))
    ));
    assert!(swapped_remote.list_items().expect("lists").is_empty());
}

#[test]
fn blob_validation_asks_for_a_ciphertext() {
    let item = build_item(1, "a", at(10), 1);
    assert!(SyncEngine::validate_encrypted_blob_only(&item));
    let mut empty = build_item(1, "a", at(10), 1);
    empty.encrypted_data.clear();
    assert!(!SyncEngine::validate_encrypted_blob_only(&empty));
    assert!(SyncEngine::validate_snapshots(&vec![item], &vec![]).is_ok());
    assert!(SyncEngine::validate_snapshots(&vec![], &vec![empty]).is_err());
}

#[test]
fn higher_version_stands_for_a_side_that_holds_item_and_tombstone() {
    let mut local = MemoryRepository::new();
    let mut remote = MemoryRepository::new();
    local.upsert_item(&build_item(51, "revived", at(100), 5)).expect("upsert");
    local
        .upsert_tombstone(&SyncTombstone { id: 51, deleted_at: at(50), sync_version: 4 })
        .expect("upsert");
    local.upsert_item(&build_item(52, "gone", at(100), 4)).expect("upsert");
    local
        .upsert_tombstone(&SyncTombstone { id: 52, deleted_at: at(50), sync_version: 4 })
        .expect("upsert");

    let report = SyncEngine::sync_bidirectional(&mut local, &mut remote).expect("syncs");
    assert_eq!(report.uploaded, 2);
    assert_eq!(report.downloaded, 0);
    assert_eq!(report.conflicts, 0);
    assert_eq!(remote.get_item(51).expect("uploaded").title, "revived");
    assert!(remote.get_item(52).is_err());
    assert_eq!(
        remote.list_tombstones().expect("lists"),
        vec![SyncTombstone { id: 52, deleted_at: at(50), sync_version: 4 }]
    );
}

#[test]
fn later_timestamp_wins_at_equal_versions() {
    let local = Some(SyncState::Item(build_item(1, "local", at(10), 2)));
    let remote = Some(SyncState::Item(build_item(1, "remote", at(11), 2)));
    let resolution = SyncEngine::resolve_state(&local, &remote).expect("resolves");
    assert!(resolution.conflict);
    assert!(!resolution.replay_blocked);
    match resolution.winner {
        SyncState::Item(item) => assert_eq!(item.title, "remote"),
        SyncState::Tombstone(_) => panic!("an item wins"),
    }
    let resolution = SyncEngine::resolve_state(&remote, &local).expect("resolves");
    match resolution.winner {
        SyncState::Item(item) => assert_eq!(item.title, "remote"),
        SyncState::Tombstone(_) => panic!("an item wins"),
    }
}

#[test]
fn tie_breakers_apply_in_order() {
    let item = build_item(1, "item", at(10), 2);
    let tombstone = SyncTombstone { id: 1, deleted_at: at(10), sync_version: 2 };
    let resolution = SyncEngine::resolve_state(
        &Some(SyncState::Item(item.clone())),
        &Some(SyncState::Tombstone(tombstone)),
    )
    .expect("resolves");
    assert!(resolution.conflict);
    assert!(matches!(resolution.winner, SyncState::Tombstone(_)));

    let mut greater = build_item(1, "greater", at(10), 2);
    greater.encrypted_data = vec![1, 2, 4];
    let resolution = SyncEngine::resolve_state(
        &Some(SyncState::Item(item.clone())),
        &Some(SyncState::Item(greater.clone())),
    )
    .expect("resolves");
    match resolution.winner {
        SyncState::Item(won) => assert_eq!(won.title, "greater"),
        SyncState::Tombstone(_) => panic!("an item wins"),
    }
    let resolution = SyncEngine::resolve_state(
        &Some(SyncState::Item(greater)),
        &Some(SyncState::Item(item.clone())),
    )
    .expect("resolves");
    match resolution.winner {
        SyncState::Item(won) => assert_eq!(won.title, "greater"),
        SyncState::Tombstone(_) => panic!("an item wins"),
    }

    let mut renamed = item.clone();
    renamed.title = "renamed".to_owned();
    let resolution = SyncEngine::resolve_state(
        &Some(SyncState::Item(item.clone())),
        &Some(SyncState::Item(renamed)),
    )
    .expect("resolves");
    assert!(resolution.conflict);
    match resolution.winner {
        SyncState::Item(won) => assert_eq!(won.title, "item"),
        SyncState::Tombstone(_) => panic!("an item wins"),
    }
}

#[test]
fn equal_states_and_single_states_are_no_conflict() {
    let item = build_item(1, "item", at(10), 2);
    let both = SyncEngine::resolve_state(
        &Some(SyncState::Item(item.clone())),
        &Some(SyncState::Item(item.clone())),
    )
    .expect("resolves");
    assert!(!both.conflict);
    assert!(!both.replay_blocked);
    let single = SyncEngine::resolve_state(&None, &Some(SyncState::Item(item))).expect("resolves");
    assert!(!single.conflict);
    assert!(SyncEngine::resolve_state(&None, &None).is_none());
}

#[test]
fn byte_strings_are_ordered_lexicographically() {
    assert!(bytes_not_below(&[1, 2, 3], &[1, 2, 3]));
    assert!(bytes_not_below(&[1, 2, 4], &[1, 2, 3]));
    assert!(!bytes_not_below(&[1, 2, 3], &[1, 2, 4]));
    assert!(bytes_not_below(&[1, 2, 3, 0], &[1, 2, 3]));
    assert!(!bytes_not_below(&[1, 2], &[1, 2, 0]));
    assert!(bytes_not_below(&[2], &[1, 9, 9]));
    assert!(bytes_not_below(&[], &[]));
    assert!(!bytes_not_below(&[], &[0]));
}

#[test]
fn plan_holds_a_step_for_every_identifier_that_a_replica_lacks() {
    let local_items = vec![build_item(1, "same", at(10), 1), build_item(2, "local newer", at(20), 3)];
    let local_tombstones = vec![SyncTombstone { id: 3, deleted_at: at(30), sync_version: 2 }];
    let remote_items = vec![
        build_item(1, "same", at(10), 1),
        build_item(2, "remote older", at(5), 2),
        build_item(4, "remote only", at(5), 1),
    ];
    let remote_tombstones: Vec<SyncTombstone> = Vec::new();

    let plan = SyncEngine::plan(&local_items, &local_tombstones, &remote_items, &remote_tombstones)
        .expect("plans");
    assert_eq!(plan.report.downloaded, 1);
    assert_eq!(plan.report.uploaded, 2);
    assert_eq!(plan.report.conflicts, 1);
    assert_eq!(plan.report.replay_blocked, 1);
    assert_eq!(plan.report.conflict_ids, vec![2]);

    let mut steps: Vec<(u128, bool, bool, bool)> = plan
        .steps
        .iter()
        .map(|step| (step.id, step.download, step.upload, matches!(step.winner, SyncState::Item(_))))
        .collect();
    steps.sort();
    assert_eq!(
        steps,
        vec![(2, false, true, true), (3, false, true, false), (4, true, false, true)]
    );
    for step in &plan.steps {
        match &step.winner {
            SyncState::Item(item) => assert_eq!(item.id, step.id),
            SyncState::Tombstone(tombstone) => assert_eq!(tombstone.id, step.id),
        }
    }
}

#[test]
fn plan_of_equal_replicas_is_empty() {
    let items = vec![build_item(1, "a", at(10), 1), build_item(2, "b", at(20), 3)];
    let tombstones = vec![SyncTombstone { id: 3, deleted_at: at(30), sync_version: 2 }];
    let plan = SyncEngine::plan(&items, &tombstones, &items, &tombstones).expect("plans");
    assert!(plan.steps.is_empty());
    let report = plan.report.clone();
    let nothing = SyncReport::default();
    assert_eq!(report.uploaded, nothing.uploaded);
    assert_eq!(report.downloaded, nothing.downloaded);
    assert_eq!(report.conflicts, nothing.conflicts);
    assert_eq!(report.replay_blocked, nothing.replay_blocked);
    assert_eq!(report.conflict_ids, nothing.conflict_ids);
    let empty = SyncEngine::plan(&Vec::new(), &Vec::new(), &Vec::new(), &Vec::new()).expect("plans");
    assert!(empty.steps.is_empty());
}

#[test]
fn plan_turns_away_an_item_without_ciphertext() {
    let mut broken = build_item(1, "broken", at(10), 1);
    broken.encrypted_data.clear();
    let fine = vec![build_item(2, "fine", at(10), 1)];
    for (local, remote) in [(vec![broken.clone()], fine.clone()), (fine, vec![broken])] {
        match SyncEngine::plan(&local, &Vec::new(), &remote, &Vec::new()) {
            Err(ChacrabError::Config(reason)) => {
                assert_eq!(reason, "sync rejected invalid encrypted payload")
            }
            other => panic!("expected a configuration error, got {:?}", other),
        }
    }
}
