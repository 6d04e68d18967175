use chacrab::errors::ChacrabError;
use chacrab::models::{Timestamp, VaultItem, VaultItemType};
use chacrab::storage::{
    item_from_row, item_type_to_str, items_from_rows, normalize_sqlite_url, parse_item_type,
    row_from_item, select_backend, tombstone_from_row, BackendKind, StoredItem, StoredTombstone,
};

fn row(nonce: Vec<u8>) -> StoredItem {
    StoredItem {
        id: "123e4567-e89b-12d3-a456-426614174000".to_owned(),
        item_type: "password".to_owned(),
        title: "Bad Nonce".to_owned(),
        username: None,
        url: None,
        encrypted_data: vec![1u8, 2, 3],
        nonce,
        sync_version: None,
        created_at: "2024-05-01T10:00:00+00:00".to_owned(),
        updated_at: "2024-05-01T12:00:00.5+02:00".to_owned(),
    }
}

#[test]
fn list_items_rejects_malformed_nonce_length() {
    let rows = vec![row(vec![0u8; 12]), row(vec![7u8, 8, 9])];
    let result = items_from_rows(&rows);
    assert!(matches!(result, Err(ChacrabError::Storage)));
}

#[test]
fn get_item_rejects_malformed_nonce_length() {
    let mut bad = row(vec![7u8, 8, 9, 10, 11]);
    bad.item_type = "note".to_owned();
    let result = item_from_row(&bad);
    assert!(matches!(result, Err(ChacrabError::Storage)));
    assert!(matches!(item_from_row(&row(vec![0u8; 13])), Err(ChacrabError::Storage)));
    assert!(matches!(item_from_row(&row(Vec::new())), Err(ChacrabError::Storage)));
}

#[test]
fn app_repository_rejects_unknown_backend() {
    let result = select_backend("unknown");
    assert!(matches!(result, Err(ChacrabError::UnsupportedBackend(_))));
    match select_backend("SQLite") {
        Err(ChacrabError::UnsupportedBackend(name)) => assert_eq!(name, "SQLite"),
        other => panic!("expected an unsupported backend, got {:?}", other),
    }
}

#[test]
fn the_three_backends_are_selected_by_name() {
    assert_eq!(select_backend("sqlite").expect("known"), BackendKind::Sqlite);
    assert_eq!(select_backend("postgres").expect("known"), BackendKind::Postgres);
    assert_eq!(select_backend("mongo").expect("known"), BackendKind::Mongo);
}

#[test]
fn readable_row_becomes_an_item() {
    let item = item_from_row(&row(vec![5u8; 12])).expect("reads");
    assert_eq!(item.id, 0x123e4567_e89b_12d3_a456_426614174000);
    assert_eq!(item.item_type, VaultItemType::Password);
    assert_eq!(item.title, "Bad Nonce");
    assert_eq!(item.nonce, [5u8; 12]);
    assert_eq!(item.encrypted_data, vec![1u8, 2, 3]);
    assert_eq!(item.sync_version, 1);
    assert_eq!(item.created_at.secs(), 1_714_557_600);
    assert_eq!(item.updated_at.secs(), 1_714_557_600);
    assert_eq!(item.updated_at.subsec_nanos(), 500_000_000);
    let listed = items_from_rows(&vec![row(vec![5u8; 12]), row(vec![6u8; 12])]).expect("reads");
    assert_eq!(listed.len(), 2);
    assert_eq!(listed[1].nonce, [6u8; 12]);
}

#[test]
fn rows_with_bad_columns_are_storage_errors() {
    let mut bad = row(vec![5u8; 12]);
    bad.id = "not-an-id".to_owned();
    assert!(matches!(item_from_row(&bad), Err(ChacrabError::Storage)));
    let mut bad = row(vec![5u8; 12]);
    bad.item_type = "secret".to_owned();
    assert!(matches!(item_from_row(&bad), Err(ChacrabError::Storage)));
    let mut bad = row(vec![5u8; 12]);
    bad.created_at = "2024-05-01".to_owned();
    assert!(matches!(item_from_row(&bad), Err(ChacrabError::Storage)));
    let mut bad = row(vec![5u8; 12]);
    bad.updated_at = "10000-01-01T00:00:00Z".to_owned();
    assert!(matches!(item_from_row(&bad), Err(ChacrabError::Storage)));
    let mut bad = row(vec![5u8; 12]);
    bad.sync_version = Some(-1);
    assert!(matches!(item_from_row(&bad), Err(ChacrabError::Storage)));
    let mut good = row(vec![5u8; 12]);
    good.sync_version = Some(41);
    assert_eq!(item_from_row(&good).expect("reads").sync_version, 41);
}

#[test]
fn item_goes_to_a_row_and_back() {
    let item = VaultItem {
        id: 77,
        item_type: VaultItemType::Note,
        title: "title".to_owned(),
        username: Some("user".to_owned()),
        url: None,
        encrypted_data: vec![4, 5],
        nonce: [9u8; 12],
        sync_version: 12,
        created_at: Timestamp::new(10, 0).expect("in range"),
        updated_at: Timestamp::new(20, 999_999_999).expect("in range"),
    };
    let stored = row_from_item(&item).expect("fits a row");
    assert_eq!(stored.id, "00000000-0000-0000-0000-00000000004d");
    assert_eq!(stored.item_type, "note");
    assert_eq!(stored.nonce, vec![9u8; 12]);
    assert_eq!(stored.sync_version, Some(12));
    assert_eq!(stored.created_at, "1970-01-01T00:00:10+00:00");
    assert_eq!(stored.updated_at, "1970-01-01T00:00:20.999999999+00:00");
    assert!(item_from_row(&stored).expect("reads").same_as(&item));
    let mut huge = item.clone();
    huge.sync_version = i64::MAX as u64 + 1;
    assert!(matches!(row_from_item(&huge), Err(ChacrabError::Storage)));
    huge.sync_version = i64::MAX as u64;
    assert_eq!(row_from_item(&huge).expect("fits a row").sync_version, Some(i64::MAX));
}

#[test]
fn nonce_blob_has_twelve_bytes() {
    assert_eq!(
        chacrab::storage::nonce_from_blob(&[1, 2, 3, 4, 5, 6, 7, 8, 9, 10, 11, 12]).expect("reads"),
        [1, 2, 3, 4, 5, 6, 7, 8, 9, 10, 11, 12]
    );
    assert!(matches!(chacrab::storage::nonce_from_blob(&[0u8; 11]), Err(ChacrabError::Storage)));
    assert!(matches!(chacrab::storage::nonce_from_blob(&[0u8; 13]), Err(ChacrabError::Storage)));
    assert!(matches!(chacrab::storage::nonce_from_blob(&[]), Err(ChacrabError::Storage)));
}

#[test]
fn kinds_are_stored_as_lowercase_words() {
    assert_eq!(item_type_to_str(&VaultItemType::Password), "password");
    assert_eq!(item_type_to_str(&VaultItemType::Note), "note");
    assert_eq!(parse_item_type("password").expect("known"), VaultItemType::Password);
    assert_eq!(parse_item_type("note").expect("known"), VaultItemType::Note);
    assert!(matches!(parse_item_type("Password"), Err(ChacrabError::Storage)));
    assert!(matches!(parse_item_type(""), Err(ChacrabError::Storage)));
}

#[test]
fn sqlite_address_gets_a_mode_where_it_names_none() {
    assert_eq!(normalize_sqlite_url("sqlite://vault.db"), "sqlite://vault.db?mode=rwc");
    assert_eq!(normalize_sqlite_url("sqlite://vault.db?cache=shared"), "sqlite://vault.db?cache=shared&mode=rwc");
    assert_eq!(normalize_sqlite_url("sqlite://vault.db?mode=ro"), "sqlite://vault.db?mode=ro");
    assert_eq!(normalize_sqlite_url("sqlite::memory:"), "sqlite::memory:");
    assert_eq!(normalize_sqlite_url("postgres://host/db"), "postgres://host/db");
    assert_eq!(normalize_sqlite_url(""), "");
}

#[test]
fn tombstone_rows_are_read_or_turned_away() {
    let good = StoredTombstone {
        id: "00000000-0000-0000-0000-000000000009".to_owned(),
        deleted_at: "1970-01-01T00:01:00Z".to_owned(),
        sync_version: 4,
    };
    let tombstone = tombstone_from_row(&good).expect("reads");
    assert_eq!(tombstone.id, 9);
    assert_eq!(tombstone.sync_version, 4);
    assert_eq!(tombstone.deleted_at, Timestamp::new(60, 0).expect("in range"));
    for bad in [
        StoredTombstone { id: "9".to_owned(), deleted_at: good.deleted_at.clone(), sync_version: 4 },
        StoredTombstone { id: good.id.clone(), deleted_at: "soon".to_owned(), sync_version: 4 },
        StoredTombstone { id: good.id.clone(), deleted_at: good.deleted_at.clone(), sync_version: -4 },
    ] {
        assert!(matches!(tombstone_from_row(&bad), Err(ChacrabError::Storage)));
    }
}
