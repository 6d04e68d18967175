use chacrab::backup::restore_items;
use chacrab::errors::ChacrabError;
use chacrab::login::{
    current_session_key, guard_session, login, logout, register, ActivityMarkStore,
    MemoryMarkStore, MemorySessionStore, SessionKeyStore,
};
use chacrab::memory::MemoryRepository;
use chacrab::models::{AuthRecord, SyncTombstone, Timestamp, VaultItem, VaultItemType};
use chacrab::repository::VaultRepository;
use chacrab::sync_engine::SyncEngine;
use chacrab::vault::VaultService;

/// A repository whose calls fail with `Storage` once its budget of calls
/// is used up.
struct FailingRepository {
    inner: MemoryRepository,
    calls_left: usize,
}

impl FailingRepository {
    fn after(calls: usize) -> Self {
        FailingRepository { inner: MemoryRepository::new(), calls_left: calls }
    }

    fn spend(&mut self) -> Result<(), ChacrabError> {
        if self.calls_left == 0 {
            return Err(ChacrabError::Storage);
        }
        self.calls_left -= 1;
        Ok(())
    }

    fn check(&self) -> Result<(), ChacrabError> {
        if self.calls_left == 0 {
            return Err(ChacrabError::Storage);
        }
        Ok(())
    }
}

impl VaultRepository for FailingRepository {
    fn init(&mut self) -> Result<(), ChacrabError> {
        self.spend()?;
        self.inner.init()
    }

    fn upsert_item(&mut self, item: &VaultItem) -> Result<(), ChacrabError> {
        self.spend()?;
        self.inner.upsert_item(item)
    }

    fn list_items(&self) -> Result<Vec<VaultItem>, ChacrabError> {
        self.check()?;
        self.inner.list_items()
    }

    fn get_item(&self, id: u128) -> Result<VaultItem, ChacrabError> {
        self.check()?;
        self.inner.get_item(id)
    }

    fn delete_item(&mut self, id: u128) -> Result<(), ChacrabError> {
        self.spend()?;
        self.inner.delete_item(id)
    }

    fn upsert_tombstone(&mut self, tombstone: &SyncTombstone) -> Result<(), ChacrabError> {
        self.spend()?;
        self.inner.upsert_tombstone(tombstone)
    }

    fn list_tombstones(&self) -> Result<Vec<SyncTombstone>, ChacrabError> {
        self.check()?;
        self.inner.list_tombstones()
    }

    fn delete_tombstone(&mut self, id: u128) -> Result<(), ChacrabError> {
        self.spend()?;
        self.inner.delete_tombstone(id)
    }

    fn get_auth_record(&self) -> Result<Option<AuthRecord>, ChacrabError> {
        self.check()?;
        self.inner.get_auth_record()
    }

    fn set_auth_record(&mut self, auth: &AuthRecord) -> Result<(), ChacrabError> {
        self.spend()?;
        self.inner.set_auth_record(auth)
    }
}

/// A store that is locked: every call fails with `KeyringLocked`.
struct LockedStore;

impl SessionKeyStore for LockedStore {
    fn store(&mut self, _key: &[u8; 32]) -> Result<(), ChacrabError> {
        Err(ChacrabError::KeyringLocked)
    }

    fn load(&self) -> Result<[u8; 32], ChacrabError> {
        Err(ChacrabError::KeyringLocked)
    }

    fn clear(&mut self) -> Result<(), ChacrabError> {
        Err(ChacrabError::KeyringLocked)
    }
}

/// A mark store that is locked: nothing can be read, written or removed.
struct LockedMarks;

impl ActivityMarkStore for LockedMarks {
    fn store_mark(&mut self, _mark: &str) -> Result<(), ChacrabError> {
        Err(ChacrabError::KeyringLocked)
    }

    fn load_mark(&self) -> Option<String> {
        None
    }

    fn clear_mark(&mut self) -> Result<(), ChacrabError> {
        Err(ChacrabError::KeyringLocked)
    }
}

fn at(secs: i64) -> Timestamp {
    Timestamp::new(secs, 0).expect("instant in range")
}

fn item(id: u128, title: &str, updated: i64, version: u64) -> VaultItem {
    VaultItem {
        id,
        item_type: VaultItemType::Note,
        title: title.to_owned(),
        username: None,
        url: None,
        encrypted_data: vec![1, 2, 3],
        nonce: [7u8; 12],
        sync_version: version,
        created_at: at(updated),
        updated_at: at(updated),
    }
}

#[test]
fn run_that_cannot_read_a_replica_fails_with_storage_and_writes_nothing() {
    let mut local = FailingRepository::after(100);
    local.upsert_item(&item(1, "one", 10, 1)).expect("stores");
    let mut remote = FailingRepository::after(0);
    assert!(matches!(
        SyncEngine::sync_bidirectional(&mut local, &mut remote),
        Err(ChacrabError::Storage)
    ));
    assert_eq!(local.list_items().expect("lists").len(), 1);
    assert!(remote.inner.list_items().expect("lists").is_empty());
}

#[test]
fn run_that_is_cut_short_keeps_what_it_applied_and_a_second_run_converges() {
    let mut local = FailingRepository::after(100);
    local.upsert_item(&item(1, "one", 10, 1)).expect("stores");
    local.upsert_item(&item(2, "two", 20, 1)).expect("stores");
    let mut remote = FailingRepository::after(2);

    assert!(matches!(
        SyncEngine::sync_bidirectional(&mut local, &mut remote),
        Err(ChacrabError::Storage)
    ));
    assert_eq!(local.list_items().expect("lists").len(), 2);
    let applied = remote.inner.list_items().expect("lists");
    assert_eq!(applied.len(), 1);
    assert!(local.get_item(applied[0].id).expect("stored").same_as(&applied[0]));

    remote.calls_left = 100;
    let report = SyncEngine::sync_bidirectional(&mut local, &mut remote).expect("second run");
    assert_eq!(report.uploaded, 1);
    assert_eq!(report.downloaded, 0);
    assert_eq!(remote.inner.list_items().expect("lists").len(), 2);
}

#[test]
fn step_that_is_applied_by_half_leaves_the_winner_in_place() {
    let mut local = FailingRepository::after(100);
    local.upsert_item(&item(1, "revived", 50, 5)).expect("stores");
    let mut remote = FailingRepository::after(1);
    let stale = SyncTombstone { id: 1, deleted_at: at(20), sync_version: 3 };
    remote.inner.upsert_tombstone(&stale).expect("stores");

    assert!(matches!(
        SyncEngine::sync_bidirectional(&mut local, &mut remote),
        Err(ChacrabError::Storage)
    ));
    assert_eq!(remote.inner.get_item(1).expect("stored by half").title, "revived");
    assert_eq!(remote.inner.list_tombstones().expect("lists"), vec![stale]);

    remote.calls_left = 100;
    let report = SyncEngine::sync_bidirectional(&mut local, &mut remote).expect("second run");
    assert_eq!(report.uploaded, 0);
    assert_eq!(report.downloaded, 0);
    assert_eq!(report.conflicts, 0);
    assert_eq!(remote.inner.get_item(1).expect("stored").sync_version, 5);
}

#[test]
fn absent_records_are_no_failure_of_a_run() {
    let mut local = MemoryRepository::new();
    let mut remote = MemoryRepository::new();
    local
        .upsert_tombstone(&SyncTombstone { id: 9, deleted_at: at(5), sync_version: 2 })
        .expect("stores");
    remote.upsert_item(&item(8, "eight", 5, 1)).expect("stores");
    let report = SyncEngine::sync_bidirectional(&mut local, &mut remote).expect("syncs");
    assert_eq!(report.uploaded, 1);
    assert_eq!(report.downloaded, 1);
    assert_eq!(remote.list_tombstones().expect("lists").len(), 1);
    assert_eq!(local.get_item(8).expect("downloaded").title, "eight");
}

#[test]
fn service_reports_a_failing_repository_as_storage() {
    let key = [5u8; 32];
    let mut service = VaultService::new(FailingRepository::after(0));
    assert!(matches!(service.list(), Err(ChacrabError::Storage)));
    assert!(matches!(
        service.add_note("t".to_owned(), "n".to_owned(), &key),
        Err(ChacrabError::Storage)
    ));
    assert!(matches!(
        service.add_password("t".to_owned(), None, None, "p".to_owned(), None, &key),
        Err(ChacrabError::Storage)
    ));
    assert!(matches!(service.update_note(1, None, None, &key), Err(ChacrabError::Storage)));
    assert!(matches!(
        service.update_password(1, None, None, None, None, None, &key),
        Err(ChacrabError::Storage)
    ));
    assert!(matches!(service.delete(1), Err(ChacrabError::Storage)));
    assert!(matches!(service.delete_at(1, at(5)), Err(ChacrabError::Storage)));
    assert!(service.repository().inner.list_tombstones().expect("lists").is_empty());
}

#[test]
fn update_that_cannot_be_stored_changes_nothing() {
    let key = [5u8; 32];
    let mut service = VaultService::new(FailingRepository::after(1));
    let added = service.add_note("t".to_owned(), "n".to_owned(), &key).expect("adds");
    service.repository_mut().calls_left = 1;
    service.repository_mut().spend().expect("spends the last call");
    assert!(matches!(
        service.update_note(added.id, Some("u".to_owned()), None, &key),
        Err(ChacrabError::Storage)
    ));
    let stored = service.repository().inner.get_item(added.id).expect("stored");
    assert_eq!(stored.title, "t");
    assert_eq!(stored.sync_version, 1);
}

#[test]
fn deletion_that_is_cut_short_removes_the_item_at_most() {
    let key = [5u8; 32];
    let mut service = VaultService::new(FailingRepository::after(1));
    let added = service.add_note("t".to_owned(), "n".to_owned(), &key).expect("adds");
    service.repository_mut().calls_left = 1;
    assert!(matches!(service.delete_at(added.id, at(9)), Err(ChacrabError::Storage)));
    assert!(service.repository().inner.get_item(added.id).is_err());
    assert!(service.repository().inner.list_tombstones().expect("lists").is_empty());
}

#[test]
fn login_reports_the_failure_of_repository_and_store() {
    let mut healthy = MemoryRepository::new();
    register(&mut healthy, "MasterPass12!").expect("registers");
    let record = healthy.get_auth_record().expect("reads").expect("stored");

    let mut store = MemorySessionStore::new();
    let broken = FailingRepository::after(0);
    assert!(matches!(
        login(&broken, "MasterPass12!", &mut store),
        Err(ChacrabError::Storage)
    ));
    assert!(store.load().is_err());

    let mut locked = LockedStore;
    assert!(matches!(
        login(&healthy, "MasterPass12!", &mut locked),
        Err(ChacrabError::KeyringLocked)
    ));
    assert!(matches!(
        login(&healthy, "WrongPass12!!", &mut locked),
        Err(ChacrabError::InvalidCredentials)
    ));
    let mut marks = MemoryMarkStore::new();
    marks.store_mark("1700000000").expect("stores");
    assert!(matches!(logout(&mut locked, &mut marks), Err(ChacrabError::KeyringLocked)));
    assert_eq!(marks.load_mark(), Some("1700000000".to_owned()));
    assert!(matches!(current_session_key(&locked), Err(ChacrabError::KeyringLocked)));
    assert!(matches!(
        chacrab::login::session_state(&locked),
        chacrab::session::SessionState::Locked
    ));
    assert_eq!(record.argon2_t_cost, 3);
}

#[test]
fn clock_gives_whole_seconds_and_less_than_one_second() {
    for _ in 0..50 {
        let now = Timestamp::now();
        assert!(now.subsec_nanos() < 1_000_000_000);
        assert!(now.secs() >= -62_167_219_200 && now.secs() <= 253_402_300_799);
    }
}

#[test]
fn logout_with_a_locked_mark_store_still_ends_the_custody_of_the_key() {
    let mut store = MemorySessionStore::new();
    store.store(&[9u8; 32]).expect("stores");
    let mut marks = LockedMarks;
    assert!(matches!(logout(&mut store, &mut marks), Err(ChacrabError::KeyringLocked)));
    assert!(matches!(store.load(), Err(ChacrabError::NoActiveSession)));
}

#[test]
fn guard_reports_the_failure_of_a_locked_store() {
    let mut locked = LockedStore;
    let mut marks = MemoryMarkStore::new();
    marks.store_mark("900").expect("stores");
    assert!(matches!(
        guard_session(&mut locked, &mut marks, 2_000, 100),
        Err(ChacrabError::KeyringLocked)
    ));
    assert_eq!(marks.load_mark(), Some("900".to_owned()));

    let mut store = MemorySessionStore::new();
    store.store(&[9u8; 32]).expect("stores");
    let mut locked_marks = LockedMarks;
    assert!(matches!(
        guard_session(&mut store, &mut locked_marks, 2_000, 100),
        Err(ChacrabError::KeyringLocked)
    ));
    assert_eq!(store.load().expect("kept"), [9u8; 32]);
}

#[test]
fn restore_cut_short_keeps_the_items_stored_before_the_failure() {
    let mut repo = FailingRepository::after(1);
    let items = vec![item(1, "one", 10, 1), item(2, "two", 20, 1), item(3, "three", 30, 1)];
    assert!(matches!(restore_items(&mut repo, &items), Err(ChacrabError::Storage)));
    let held = repo.inner.list_items().expect("lists");
    assert_eq!(held.len(), 1);
    assert_eq!(held[0].id, 1);
}
