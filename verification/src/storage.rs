//! What the backends share: the choice of a backend, the text form of the
//! item kind, and the reading of stored rows.

use vstd::prelude::*;
use vstd::string::StringExecFns;
use crate::errors::{ChacrabError, ErrorKind};
use crate::ids::{id_from_text, uuid_value};
use crate::models::{
    clone_text, same_str, stored_instant, text_view, SyncTombstone, Timestamp, VaultItem,
    VaultItemType, VaultItemView,
};
use crate::text::{begins_with, chars_of, contains, occurs_in, starts_with};

verus! {

/// The backends that a repository can live in.
#[derive(Clone, Copy, Debug, PartialEq, Eq, Structural)]
pub enum BackendKind {
    Sqlite,
    Postgres,
    Mongo,
}

/// The backend that an identifier names.
pub open spec fn backend_named(name: Seq<char>) -> Option<BackendKind> {
    if name == "sqlite"@ {
        Some(BackendKind::Sqlite)
    } else if name == "postgres"@ {
        Some(BackendKind::Postgres)
    } else if name == "mongo"@ {
        Some(BackendKind::Mongo)
    } else {
        None
    }
}

/// The backend that `backend` names; `UnsupportedBackend` with the name
/// for any other value.
pub fn select_backend(backend: &str) -> (r: Result<BackendKind, ChacrabError>)
    ensures
        match r {
            Ok(kind) => backend_named(backend@) == Some(kind),
            Err(e) => backend_named(backend@) is None && e@ == ErrorKind::UnsupportedBackend(
                backend@,
            ),
        },
{
    if same_str(backend, "sqlite") {
        Ok(BackendKind::Sqlite)
    } else if same_str(backend, "postgres") {
        Ok(BackendKind::Postgres)
    } else if same_str(backend, "mongo") {
        Ok(BackendKind::Mongo)
    } else {
        Err(ChacrabError::UnsupportedBackend(backend.to_owned()))
    }
}

/// The kind that a stored text names.
pub open spec fn item_type_named(value: Seq<char>) -> Option<VaultItemType> {
    if value == "password"@ {
        Some(VaultItemType::Password)
    } else if value == "note"@ {
        Some(VaultItemType::Note)
    } else {
        None
    }
}

/// The text under which a kind is stored.
pub open spec fn item_type_text(item_type: VaultItemType) -> Seq<char> {
    match item_type {
        VaultItemType::Password => "password"@,
        VaultItemType::Note => "note"@,
    }
}

/// The kind that a stored text names; `Storage` for any other text.
pub fn parse_item_type(value: &str) -> (r: Result<VaultItemType, ChacrabError>)
    ensures
        match r {
            Ok(item_type) => item_type_named(value@) == Some(item_type),
            Err(e) => item_type_named(value@) is None && e@ == ErrorKind::Storage,
        },
{
    if same_str(value, "password") {
        Ok(VaultItemType::Password)
    } else if same_str(value, "note") {
        Ok(VaultItemType::Note)
    } else {
        Err(ChacrabError::Storage)
    }
}

/// The text under which a kind is stored.
pub fn item_type_to_str(item_type: &VaultItemType) -> (text: &'static str)
    ensures
        text@ == item_type_text(*item_type),
{
    match item_type {
        VaultItemType::Password => "password",
        VaultItemType::Note => "note",
    }
}

/// An SQLite address that asks to create the database where it is missing:
/// an address with the scheme `sqlite://` that names no mode gets
/// `mode=rwc`; any other address stays as it is.
pub open spec fn normalized_sqlite_url(url: Seq<char>) -> Seq<char> {
    if !begins_with(url, "sqlite://"@) {
        url
    } else if occurs_in(url, "mode="@) {
        url
    } else if occurs_in(url, "?"@) {
        url + "&mode=rwc"@
    } else {
        url + "?mode=rwc"@
    }
}

/// Makes an SQLite address ask for the creation of a missing database.
pub fn normalize_sqlite_url(database_url: &str) -> (url: String)
    ensures
        url@ == normalized_sqlite_url(database_url@),
{
    let chars = chars_of(database_url);
    let scheme = chars_of("sqlite://");
    if !starts_with(chars.as_slice(), scheme.as_slice()) {
        return database_url.to_owned();
    }
    let mode = chars_of("mode=");
    if contains(chars.as_slice(), mode.as_slice()) {
        return database_url.to_owned();
    }
    let mark = chars_of("?");
    if contains(chars.as_slice(), mark.as_slice()) {
        database_url.to_owned().concat("&mode=rwc")
    } else {
        database_url.to_owned().concat("?mode=rwc")
    }
}

/// The mathematical value of a [`StoredItem`].
pub struct StoredItemView {
    pub id: Seq<char>,
    pub item_type: Seq<char>,
    pub title: Seq<char>,
    pub username: Option<Seq<char>>,
    pub url: Option<Seq<char>>,
    pub encrypted_data: Seq<u8>,
    pub nonce: Seq<u8>,
    pub sync_version: Option<i64>,
    pub created_at: Seq<char>,
    pub updated_at: Seq<char>,
}

/// An item as a backend stores it: every column as text, bytes or number.
#[derive(Debug)]
pub struct StoredItem {
    /// The identifier in hyphenated notation.
    pub id: String,
    /// `password` or `note`.
    pub item_type: String,
    pub title: String,
    pub username: Option<String>,
    pub url: Option<String>,
    pub encrypted_data: Vec<u8>,
    /// The nonce as a blob of twelve bytes.
    pub nonce: Vec<u8>,
    /// `None` where the backend has no such column: the item then carries
    /// version 1.
    pub sync_version: Option<i64>,
    /// The instant of creation in RFC 3339.
    pub created_at: String,
    /// The instant of the last update in RFC 3339.
    pub updated_at: String,
}

impl View for StoredItem {
    type V = StoredItemView;

    open spec fn view(&self) -> StoredItemView {
        StoredItemView {
            id: self.id@,
            item_type: self.item_type@,
            title: self.title@,
            username: text_view(self.username),
            url: text_view(self.url),
            encrypted_data: self.encrypted_data@,
            nonce: self.nonce@,
            sync_version: self.sync_version,
            created_at: self.created_at@,
            updated_at: self.updated_at@,
        }
    }
}

/// The version that a stored number stands for: the number, 1 where the
/// row holds none, and nothing for a negative number.
pub open spec fn stored_version(version: Option<i64>) -> Option<u64> {
    match version {
        Some(number) => if number >= 0 {
            Some(number as u64)
        } else {
            None
        },
        None => Some(1),
    }
}

/// The item that a row holds. A row holds none if its nonce has not twelve
/// bytes, if its identifier or its kind is no known text, if its version is
/// negative or if a timestamp is no RFC 3339 instant.
pub open spec fn row_item(row: StoredItemView) -> Option<VaultItemView> {
    if row.nonce.len() != 12 {
        None
    } else {
        match (
            uuid_value(row.id),
            item_type_named(row.item_type),
            stored_version(row.sync_version),
            stored_instant(row.created_at),
            stored_instant(row.updated_at),
        ) {
            (Some(id), Some(item_type), Some(sync_version), Some(created_at), Some(updated_at)) => Some(
                VaultItemView {
                    id,
                    item_type,
                    title: row.title,
                    username: row.username,
                    url: row.url,
                    encrypted_data: row.encrypted_data,
                    nonce: row.nonce,
                    sync_version,
                    created_at,
                    updated_at,
                },
            ),
            _ => None,
        }
    }
}

/// The row under which an item is stored, with the given texts for its
/// timestamps. A version beyond the 63 bits of a stored number has no row.
pub open spec fn item_row(item: VaultItemView, created_at: Seq<char>, updated_at: Seq<char>) -> Option<
    StoredItemView,
> {
    if item.sync_version <= i64::MAX {
        Some(
            StoredItemView {
                id: crate::ids::uuid_text(item.id),
                item_type: item_type_text(item.item_type),
                title: item.title,
                username: item.username,
                url: item.url,
                encrypted_data: item.encrypted_data,
                nonce: item.nonce,
                sync_version: Some(item.sync_version as i64),
                created_at,
                updated_at,
            },
        )
    } else {
        None
    }
}

/// The nonce that a stored blob holds.
///
/// Fails with `Storage` exactly on a blob of any length but twelve.
pub fn nonce_from_blob(blob: &[u8]) -> (r: Result<[u8; 12], ChacrabError>)
    ensures
        r is Ok <==> blob@.len() == 12,
        r matches Ok(nonce) ==> nonce@ == blob@,
        r matches Err(e) ==> e@ == ErrorKind::Storage,
{
    if blob.len() != 12 {
        return Err(ChacrabError::Storage);
    }
    let mut nonce: [u8; 12] = [0u8; 12];
    let mut i: usize = 0;
    while i < 12
        invariant
            i <= 12,
            blob.len() == 12,
            forall|k: int| 0 <= k < i ==> nonce@[k] == blob@[k],
        decreases 12 - i,
    {
        nonce[i] = blob[i];
        i += 1;
    }
    assert(nonce@ =~= blob@);
    Ok(nonce)
}

/// Reads a stored row as an item, as [`row_item`] says.
///
/// Fails with `Storage` exactly on a row that holds no item; a nonce of
/// any length but twelve makes such a row.
pub fn item_from_row(row: &StoredItem) -> (r: Result<VaultItem, ChacrabError>)
    ensures
        match r {
            Ok(item) => row_item(row@) == Some(item@),
            Err(e) => row_item(row@) is None && e@ == ErrorKind::Storage,
        },
{
    let nonce = match nonce_from_blob(row.nonce.as_slice()) {
        Ok(nonce) => nonce,
        Err(e) => {
            return Err(e);
        },
    };
    let id = match id_from_text(row.id.as_str()) {
        Some(id) => id,
        None => {
            return Err(ChacrabError::Storage);
        },
    };
    let item_type = match parse_item_type(row.item_type.as_str()) {
        Ok(item_type) => item_type,
        Err(e) => {
            return Err(e);
        },
    };
    let sync_version: u64 = match row.sync_version {
        Some(version) => {
            if version < 0 {
                return Err(ChacrabError::Storage);
            }
            version as u64
        },
        None => crate::models::default_sync_version(),
    };
    let created_at = match Timestamp::parse_from_rfc3339(row.created_at.as_str()) {
        Some(at) => at,
        None => {
            return Err(ChacrabError::Storage);
        },
    };
    let updated_at = match Timestamp::parse_from_rfc3339(row.updated_at.as_str()) {
        Some(at) => at,
        None => {
            return Err(ChacrabError::Storage);
        },
    };
    Ok(
        VaultItem {
            id,
            item_type,
            title: row.title.clone(),
            username: clone_text(&row.username),
            url: clone_text(&row.url),
            encrypted_data: row.encrypted_data.clone(),
            nonce,
            sync_version,
            created_at,
            updated_at,
        },
    )
}

/// Reads stored rows as items, in order.
///
/// Fails with `Storage` if any row holds no item.
pub fn items_from_rows(rows: &Vec<StoredItem>) -> (r: Result<Vec<VaultItem>, ChacrabError>)
    ensures
        r is Ok <==> (forall|i: int| 0 <= i < rows.len() ==> row_item((#[trigger] rows[i])@) is Some),
        r matches Err(e) ==> e@ == ErrorKind::Storage,
        r matches Ok(items) ==> items.len() == rows.len() && forall|i: int|
            0 <= i < rows.len() ==> row_item(rows[i]@) == Some((#[trigger] items[i])@),
{
    let mut items: Vec<VaultItem> = Vec::new();
    let mut i: usize = 0;
    while i < rows.len()
        invariant
            i <= rows.len(),
            items.len() == i,
            forall|k: int| 0 <= k < i ==> row_item(rows[k]@) == Some((#[trigger] items[k])@),
        decreases rows.len() - i,
    {
        match item_from_row(&rows[i]) {
            Ok(item) => {
                items.push(item);
            },
            Err(e) => {
                return Err(e);
            },
        }
        i += 1;
    }
    assert forall|k: int| 0 <= k < rows.len() implies row_item((#[trigger] rows[k])@) is Some by {
        assert(row_item(rows[k]@) == Some(items[k]@));
    }
    Ok(items)
}

/// The row under which `item` is stored, as [`item_row`] says, with the
/// timestamps in RFC 3339. Reading the row gives the item back.
///
/// Fails with `Storage` exactly on a version beyond the 63 bits of a stored
/// number.
pub fn row_from_item(item: &VaultItem) -> (r: Result<StoredItem, ChacrabError>)
    ensures
        r is Ok <==> item.sync_version <= i64::MAX,
        r matches Ok(row) ==> Some(row@) == item_row(
            item@,
            crate::models::rfc3339_text(item.created_at.seconds(), item.created_at.subsec()),
            crate::models::rfc3339_text(item.updated_at.seconds(), item.updated_at.subsec()),
        ) && row_item(row@) == Some(item@),
        r matches Err(e) ==> e@ == ErrorKind::Storage,
{
    if item.sync_version > i64::MAX as u64 {
        return Err(ChacrabError::Storage);
    }
    proof {
        reveal_strlit("password");
        reveal_strlit("note");
        assert("password"@.len() == 8 && "note"@.len() == 4);
    }
    let row = StoredItem {
        id: crate::ids::id_to_text(item.id),
        item_type: item_type_to_str(&item.item_type).to_owned(),
        title: item.title.clone(),
        username: clone_text(&item.username),
        url: clone_text(&item.url),
        encrypted_data: item.encrypted_data.clone(),
        nonce: crate::models::bytes_of(item.nonce.as_slice()),
        sync_version: Some(item.sync_version as i64),
        created_at: item.created_at.to_rfc3339(),
        updated_at: item.updated_at.to_rfc3339(),
    };
    Ok(row)
}

/// A tombstone as a backend stores it.
#[derive(Debug)]
pub struct StoredTombstone {
    pub id: String,
    pub deleted_at: String,
    pub sync_version: i64,
}

/// The tombstone that a row holds: none if its identifier is no
/// identifier, if its timestamp is no RFC 3339 instant or if its version is
/// negative.
pub open spec fn row_tombstone(id: Seq<char>, deleted_at: Seq<char>, sync_version: i64) -> Option<
    SyncTombstone,
> {
    match (uuid_value(id), stored_instant(deleted_at)) {
        (Some(id), Some(deleted_at)) => if sync_version >= 0 {
            Some(SyncTombstone { id, deleted_at, sync_version: sync_version as u64 })
        } else {
            None
        },
        _ => None,
    }
}

/// Reads a stored row as a tombstone, as [`row_tombstone`] says.
///
/// Fails with `Storage` exactly on a row that holds no tombstone.
pub fn tombstone_from_row(row: &StoredTombstone) -> (r: Result<SyncTombstone, ChacrabError>)
    ensures
        match r {
            Ok(tombstone) => row_tombstone(row.id@, row.deleted_at@, row.sync_version) == Some(
                tombstone,
            ),
            Err(e) => row_tombstone(row.id@, row.deleted_at@, row.sync_version) is None && e@
                == ErrorKind::Storage,
        },
{
    let id = match id_from_text(row.id.as_str()) {
        Some(id) => id,
        None => {
            return Err(ChacrabError::Storage);
        },
    };
    let deleted_at = match Timestamp::parse_from_rfc3339(row.deleted_at.as_str()) {
        Some(at) => at,
        None => {
            return Err(ChacrabError::Storage);
        },
    };
    if row.sync_version < 0 {
        return Err(ChacrabError::Storage);
    }
    Ok(SyncTombstone { id, deleted_at, sync_version: row.sync_version as u64 })
}

} // verus!
