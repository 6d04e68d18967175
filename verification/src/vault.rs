//! The business operations of the vault, layered over a repository: add,
//! list, show, update and delete, with versioning and the audit trail.

use vstd::prelude::*;
use crate::crypto::{
    chacha20poly1305_open, chacha20poly1305_seal, decrypt, encrypt_with_nonce, fresh_nonce,
    sealable, zeroize_vec, TAG_SIZE,
};
use crate::errors::{ChacrabError, ErrorKind};
use crate::ids::fresh_id;
use crate::models::{
    rfc3339_text, text_view, SyncTombstone, Timestamp, VaultItem, VaultItemType, VaultItemView,
};
use crate::payload::{
    payload_bytes, payload_from_json, with_audit_event, EncryptedPayload, NewVaultItem,
    PayloadView,
};
use crate::repository::{
    blobs_are_valid, lists_tombstones, position_of_tombstone, removal_outcome, RepositoryState,
    VaultRepository,
};

verus! {

/// The reason with which an update of the wrong kind of item is turned
/// away.
pub open spec fn type_mismatch_reason() -> Seq<char> {
    "item type mismatch for update"@
}

/// The version after `version`: one more, and no more than the largest.
pub open spec fn bumped(version: u64) -> u64 {
    if version == u64::MAX {
        u64::MAX
    } else {
        (version + 1) as u64
    }
}

/// The changes that an update asks for. A field that is `None` stays as it
/// is; `notes` can also be cleared, with `Some(None)`.
pub struct ItemChanges {
    pub title: Option<Seq<char>>,
    pub username: Option<Seq<char>>,
    pub url: Option<Seq<char>>,
    pub password: Option<Seq<char>>,
    pub notes: Option<Option<Seq<char>>>,
}

/// The payload after an update: the fields that the caller provided take
/// the place of the old ones, and the audit trail records the action.
pub open spec fn revised_payload(
    payload: PayloadView,
    changes: ItemChanges,
    action: Seq<char>,
    now: Timestamp,
) -> PayloadView {
    PayloadView {
        password: match changes.password {
            Some(password) => Some(password),
            None => payload.password,
        },
        notes: match changes.notes {
            Some(notes) => notes,
            None => payload.notes,
        },
        custom_fields: with_audit_event(
            payload.custom_fields,
            action,
            rfc3339_text(now.seconds(), now.subsec()),
        ),
    }
}

/// The instant that an update dated `now` stamps on an item: `now`, and
/// the instant of creation where the clock stands before it, so that no
/// item is updated before it was created.
pub open spec fn revised_at(item: VaultItemView, now: Timestamp) -> Timestamp {
    if item.created_at.is_after(now) {
        item.created_at
    } else {
        now
    }
}

/// An update dated not before the last one stamps the item with its own
/// date, and so never moves `updated_at` backwards.
pub proof fn lemma_update_keeps_the_order_of_time(item: VaultItemView, now: Timestamp)
    requires
        item.well_formed(),
        !item.updated_at.is_after(now),
    ensures
        revised_at(item, now) == now,
        !item.updated_at.is_after(revised_at(item, now)),
{
}

/// The item after an update that encrypted the revised payload to
/// `ciphertext` under `nonce`: the metadata that the caller provided takes
/// the place of the old, the version is bumped and `updated_at` is
/// [`revised_at`].
pub open spec fn revised_item(
    item: VaultItemView,
    changes: ItemChanges,
    ciphertext: Seq<u8>,
    nonce: Seq<u8>,
    now: Timestamp,
) -> VaultItemView {
    VaultItemView {
        id: item.id,
        item_type: item.item_type,
        title: match changes.title {
            Some(title) => title,
            None => item.title,
        },
        username: match changes.username {
            Some(username) => Some(username),
            None => item.username,
        },
        url: match changes.url {
            Some(url) => Some(url),
            None => item.url,
        },
        encrypted_data: ciphertext,
        nonce,
        sync_version: bumped(item.sync_version),
        created_at: item.created_at,
        updated_at: revised_at(item, now),
    }
}

/// The item that an add creates from `new_item`, with the payload encrypted
/// to `ciphertext` under `nonce`: version 1, created and updated at `now`.
pub open spec fn created_item(
    new_item: NewVaultItem,
    ciphertext: Seq<u8>,
    nonce: Seq<u8>,
    id: u128,
    now: Timestamp,
) -> VaultItemView {
    VaultItemView {
        id,
        item_type: new_item.item_type,
        title: new_item.title@,
        username: text_view(new_item.username),
        url: text_view(new_item.url),
        encrypted_data: ciphertext,
        nonce,
        sync_version: 1,
        created_at: now,
        updated_at: now,
    }
}

/// What an update of `item` gives: the revised item, or the kind of the
/// error that turns the update away.
pub open spec fn revision(
    item: VaultItemView,
    expected: VaultItemType,
    changes: ItemChanges,
    action: Seq<char>,
    key: Seq<u8>,
    now: Timestamp,
    nonce: Seq<u8>,
) -> Result<VaultItemView, ErrorKind> {
    if item.item_type != expected {
        Err(ErrorKind::Config(type_mismatch_reason()))
    } else {
        match chacha20poly1305_open(key, item.nonce, item.encrypted_data) {
            None => Err(ErrorKind::Crypto),
            Some(plaintext) => match payload_from_json(plaintext) {
                None => Err(ErrorKind::Serialization),
                Some(payload) => {
                    let bytes = payload_bytes(revised_payload(payload, changes, action, now));
                    if sealable(bytes.len()) {
                        Ok(
                            revised_item(
                                item,
                                changes,
                                chacha20poly1305_seal(key, nonce, bytes),
                                nonce,
                                now,
                            ),
                        )
                    } else {
                        Err(ErrorKind::Crypto)
                    }
                },
            },
        }
    }
}

/// The plaintext that an update encrypts: the bytes of the payload that
/// the item held, revised.
pub open spec fn revised_plaintext(
    item: VaultItemView,
    changes: ItemChanges,
    action: Seq<char>,
    key: Seq<u8>,
    now: Timestamp,
) -> Seq<u8> {
    payload_bytes(
        revised_payload(
            payload_from_json(
                chacha20poly1305_open(key, item.nonce, item.encrypted_data)->0,
            )->0,
            changes,
            action,
            now,
        ),
    )
}

/// `item` is what an update of `before` gives: the [`revision`], with the
/// identifier kept, every invariant of an item at rest, a higher version
/// unless the old one was the largest there is, and a ciphertext, 16 bytes
/// longer than the plaintext, that opens under the key to the revised
/// payload.
pub open spec fn updated(
    before: VaultItemView,
    item: VaultItemView,
    expected: VaultItemType,
    changes: ItemChanges,
    action: Seq<char>,
    key: Seq<u8>,
    now: Timestamp,
    nonce: Seq<u8>,
) -> bool {
    &&& revision(before, expected, changes, action, key, now, nonce) == Ok::<
        VaultItemView,
        ErrorKind,
    >(item)
    &&& item.id == before.id
    &&& item.well_formed()
    &&& before.sync_version < u64::MAX ==> item.sync_version > before.sync_version
    &&& chacha20poly1305_open(key, item.nonce, item.encrypted_data) == Some(
        revised_plaintext(before, changes, action, key, now),
    )
    &&& item.encrypted_data.len() == revised_plaintext(before, changes, action, key, now).len()
        + TAG_SIZE
}

/// The version of the tombstone that a deletion of `id` writes: one more
/// than the highest version that the repository holds for `id`, item or
/// tombstone, and 1 where it holds neither.
pub open spec fn next_version(state: RepositoryState, id: u128) -> u64 {
    let item_version = if state.items.contains_key(id) {
        state.items[id].sync_version
    } else {
        0
    };
    let tombstone_version = if state.tombstones.contains_key(id) {
        state.tombstones[id].sync_version
    } else {
        0
    };
    if item_version >= tombstone_version {
        bumped(item_version)
    } else {
        bumped(tombstone_version)
    }
}

/// The version of the first tombstone `id` among those of `listed` from
/// the position `from` on, and 0 where there is none.
pub open spec fn listed_version_from(listed: Seq<SyncTombstone>, id: u128, from: nat) -> u64
    decreases listed.len() - from,
{
    if from >= listed.len() {
        0
    } else if listed[from as int].id == id {
        listed[from as int].sync_version
    } else {
        listed_version_from(listed, id, from + 1)
    }
}

/// The version that `listed` holds for the tombstone `id`, and 0 where it
/// holds none.
pub open spec fn listed_version(listed: Seq<SyncTombstone>, id: u128) -> u64 {
    listed_version_from(listed, id, 0)
}

/// The tombstone that a deletion of `id` writes at `now`, for an item of
/// the version `item_version` (0 for no item) and the tombstones `listed`:
/// its version is one more than the higher of the two.
pub open spec fn receipt(
    id: u128,
    item_version: u64,
    listed: Seq<SyncTombstone>,
    now: Timestamp,
) -> SyncTombstone {
    SyncTombstone {
        id,
        deleted_at: now,
        sync_version: if item_version >= listed_version(listed, id) {
            bumped(item_version)
        } else {
            bumped(listed_version(listed, id))
        },
    }
}

proof fn lemma_listed_version(listed: Seq<SyncTombstone>, id: u128, from: nat, at: int)
    requires
        from <= at <= listed.len(),
        forall|k: int| from <= k < at ==> (#[trigger] listed[k]).id != id,
        at < listed.len() ==> listed[at].id == id,
    ensures
        listed_version_from(listed, id, from) == if at < listed.len() {
            listed[at].sync_version
        } else {
            0
        },
    decreases at - from,
{
    if from < at {
        assert(listed[from as int].id != id);
        lemma_listed_version(listed, id, from + 1, at);
    }
}

/// The deletion of an identifier of which the repository holds no trace
/// writes a tombstone of version 1.
pub proof fn lemma_first_deletion_is_version_one(state: RepositoryState, id: u128)
    requires
        !state.items.contains_key(id),
        !state.tombstones.contains_key(id),
    ensures
        next_version(state, id) == 1,
{
}

/// The tombstones that a repository lists hold, for `id`, the version of
/// the tombstone that the repository holds, and 0 where it holds none.
pub proof fn lemma_listed_version_is_stored(
    listed: Seq<SyncTombstone>,
    stored: Map<u128, SyncTombstone>,
    id: u128,
)
    requires
        lists_tombstones(listed, stored),
    ensures
        listed_version(listed, id) == if stored.contains_key(id) {
            stored[id].sync_version
        } else {
            0
        },
{
    if exists|k: int| 0 <= k < listed.len() && (#[trigger] listed[k]).id == id {
        let k = choose|k: int| 0 <= k < listed.len() && (#[trigger] listed[k]).id == id;
        assert(stored[listed[k].id] == listed[k]);
        assert forall|j: int| 0 <= j < k implies (#[trigger] listed[j]).id != id by {
            assert(listed[j].id != listed[k].id);
        }
        lemma_listed_version(listed, id, 0, k);
    } else {
        lemma_listed_version(listed, id, 0, listed.len() as int);
        if stored.contains_key(id) {
            let i = choose|i: int| 0 <= i < listed.len() && (#[trigger] listed[i]).id == id;
            assert(listed[i].id == id);
        }
    }
}

/// The version of the item that a lookup found, 0 where the lookup found
/// that there is none, and the error of any other lookup.
pub fn known_item_version(found: Result<VaultItem, ChacrabError>) -> (r: Result<u64, ChacrabError>)
    ensures
        found matches Ok(item) ==> (r matches Ok(v) && v == item.sync_version),
        found matches Err(e) ==> (if e@ == ErrorKind::NotFound {
            r matches Ok(v) && v == 0
        } else {
            r matches Err(x) && x@ == e@
        }),
{
    match found {
        Ok(item) => Ok(item.sync_version),
        Err(ChacrabError::NotFound) => Ok(0),
        Err(e) => Err(e),
    }
}

/// The tombstone that a deletion of `id` writes, as [`receipt`] says.
pub fn deletion_receipt(id: u128, item_version: u64, listed: &Vec<SyncTombstone>, now: Timestamp) -> (t:
    SyncTombstone)
    ensures
        t == receipt(id, item_version, listed@, now),
{
    let tombstone_version: u64 = match position_of_tombstone(listed, id) {
        Some(at) => {
            proof {
                lemma_listed_version(listed@, id, 0, at as int);
            }
            listed[at].sync_version
        },
        None => {
            proof {
                lemma_listed_version(listed@, id, 0, listed@.len() as int);
            }
            0
        },
    };
    let top: u64 = if item_version >= tombstone_version {
        item_version
    } else {
        tombstone_version
    };
    SyncTombstone { id, deleted_at: now, sync_version: top.saturating_add(1) }
}

/// Decrypts the payload of `item` and decodes it.
///
/// Fails with `Crypto` on a tag mismatch and with `Serialization` on a
/// plaintext that encodes no payload.
pub fn decrypt_payload(item: &VaultItem, key: &[u8; 32]) -> (r: Result<
    EncryptedPayload,
    ChacrabError,
>)
    ensures
        match r {
            Ok(payload) => chacha20poly1305_open(key@, item@.nonce, item@.encrypted_data)
                matches Some(plaintext) && payload_from_json(plaintext) == Some(payload@)
                && payload@.well_formed(),
            Err(e) => match chacha20poly1305_open(key@, item@.nonce, item@.encrypted_data) {
                None => e@ == ErrorKind::Crypto,
                Some(plaintext) => e@ == ErrorKind::Serialization && payload_from_json(plaintext)
                    is None,
            },
        },
{
    let mut plaintext = match decrypt(key, &item.nonce, item.encrypted_data.as_slice()) {
        Ok(plaintext) => plaintext,
        Err(e) => {
            return Err(e);
        },
    };
    let decoded = EncryptedPayload::from_json(plaintext.as_slice());
    zeroize_vec(&mut plaintext);
    decoded
}

/// Builds the item that an add stores: the payload is encoded and
/// encrypted under `key` and `nonce`, and the plaintext is wiped.
///
/// Fails with `Crypto` exactly when the payload is too long to be sealed.
pub fn build_item(new_item: NewVaultItem, key: &[u8; 32], id: u128, now: Timestamp, nonce: [u8; 12]) -> (r:
    Result<VaultItem, ChacrabError>)
    ensures
        r is Ok <==> sealable(payload_bytes(new_item.payload@).len()),
        r matches Ok(item) ==> {
            &&& item@ == created_item(
                new_item,
                chacha20poly1305_seal(key@, nonce@, payload_bytes(new_item.payload@)),
                nonce@,
                id,
                now,
            )
            &&& item@.well_formed()
            &&& chacha20poly1305_open(key@, item@.nonce, item@.encrypted_data) == Some(
                payload_bytes(new_item.payload@),
            )
            &&& item.encrypted_data@.len() == payload_bytes(new_item.payload@).len() + TAG_SIZE
        },
        r matches Err(e) ==> e@ == ErrorKind::Crypto,
{
    let mut serialized = new_item.payload.to_json();
    let encrypted = encrypt_with_nonce(key, nonce, serialized.as_slice());
    zeroize_vec(&mut serialized);
    match encrypted {
        Ok(blob) => {
            proof {
                now.lemma_order_is_total(now);
            }
            Ok(
                VaultItem {
                    id,
                    item_type: new_item.item_type,
                    title: new_item.title,
                    username: new_item.username,
                    url: new_item.url,
                    encrypted_data: blob.ciphertext,
                    nonce: blob.nonce,
                    sync_version: 1,
                    created_at: now,
                    updated_at: now,
                },
            )
        },
        Err(e) => Err(e),
    }
}

/// The view of an optional optional string.
pub open spec fn nested_text_view(text: Option<Option<String>>) -> Option<Option<Seq<char>>> {
    match text {
        Some(inner) => Some(text_view(inner)),
        None => None,
    }
}

/// Revises `item` as [`revision`] says: checks its kind, decrypts and
/// decodes the payload, applies the changes, records `action` in the audit
/// trail, encrypts the payload anew under `nonce`, bumps the version and
/// sets `updated_at` to `now`, or to the instant of creation where the
/// clock stands before it. Plaintext is wiped on every path.
pub fn revise_item(
    item: VaultItem,
    expected: VaultItemType,
    title: Option<String>,
    username: Option<String>,
    url: Option<String>,
    password: Option<String>,
    notes: Option<Option<String>>,
    action: &str,
    key: &[u8; 32],
    now: Timestamp,
    nonce: [u8; 12],
) -> (r: Result<VaultItem, ChacrabError>)
    ensures
        match r {
            Ok(revised) => revision(
                item@,
                expected,
                ItemChanges {
                    title: text_view(title),
                    username: text_view(username),
                    url: text_view(url),
                    password: text_view(password),
                    notes: nested_text_view(notes),
                },
                action@,
                key@,
                now,
                nonce@,
            ) == Ok::<VaultItemView, ErrorKind>(revised@),
            Err(e) => revision(
                item@,
                expected,
                ItemChanges {
                    title: text_view(title),
                    username: text_view(username),
                    url: text_view(url),
                    password: text_view(password),
                    notes: nested_text_view(notes),
                },
                action@,
                key@,
                now,
                nonce@,
            ) == Err::<VaultItemView, ErrorKind>(e@),
        },
        r matches Ok(revised) ==> updated(
            item@,
            revised@,
            expected,
            ItemChanges {
                title: text_view(title),
                username: text_view(username),
                url: text_view(url),
                password: text_view(password),
                notes: nested_text_view(notes),
            },
            action@,
            key@,
            now,
            nonce@,
        ),
{
    let mut item = item;
    if item.item_type != expected {
        return Err(ChacrabError::config("item type mismatch for update"));
    }
    let mut payload = match decrypt_payload(&item, key) {
        Ok(payload) => payload,
        Err(e) => {
            return Err(e);
        },
    };
    if let Some(next_title) = title {
        item.title = next_title;
    }
    if let Some(next_username) = username {
        item.username = Some(next_username);
    }
    if let Some(next_url) = url {
        item.url = Some(next_url);
    }
    if let Some(next_password) = password {
        payload.password = Some(next_password);
    }
    if let Some(next_notes) = notes {
        payload.notes = next_notes;
    }
    payload.append_audit_event(action, now);
    let mut serialized = payload.to_json();
    let encrypted = encrypt_with_nonce(key, nonce, serialized.as_slice());
    zeroize_vec(&mut serialized);
    match encrypted {
        Ok(blob) => {
            item.encrypted_data = blob.ciphertext;
            item.nonce = blob.nonce;
            item.sync_version = item.sync_version.saturating_add(1);
            item.updated_at = if item.created_at.later_than(&now) {
                item.created_at
            } else {
                now
            };
            Ok(item)
        },
        Err(e) => Err(e),
    }
}

/// The payload of a new password item.
pub open spec fn password_payload(password: Seq<char>, notes: Option<Seq<char>>) -> PayloadView {
    PayloadView { password: Some(password), notes, custom_fields: Seq::empty() }
}

/// The payload of a new note.
pub open spec fn note_payload(notes: Seq<char>) -> PayloadView {
    PayloadView { password: None, notes: Some(notes), custom_fields: Seq::empty() }
}

/// The error with which an add fails: `Crypto` for a payload too long to
/// be sealed, and `Storage` where the repository could not store the item.
pub open spec fn add_failure(payload: PayloadView) -> ErrorKind {
    if sealable(payload_bytes(payload).len()) {
        ErrorKind::Storage
    } else {
        ErrorKind::Crypto
    }
}

/// The error with which an update of the item `id` can fail: `Storage`
/// where the repository failed, `NotFound` for an absent item, and else
/// the error that turns the revision of the stored item away.
pub open spec fn update_failure(
    state: RepositoryState,
    id: u128,
    expected: VaultItemType,
    changes: ItemChanges,
    action: Seq<char>,
    key: Seq<u8>,
    now: Timestamp,
    nonce: Seq<u8>,
    kind: ErrorKind,
) -> bool {
    ||| kind == ErrorKind::Storage
    ||| kind == ErrorKind::NotFound && !state.items.contains_key(id)
    ||| state.items.contains_key(id) && revision(
        state.items[id],
        expected,
        changes,
        action,
        key,
        now,
        nonce,
    ) == Err::<VaultItemView, ErrorKind>(kind)
}

/// The vault service over a repository.
pub struct VaultService<R: VaultRepository> {
    repository: R,
}

impl<R: VaultRepository> VaultService<R> {
    /// What the repository of the service holds.
    pub closed spec fn state(&self) -> RepositoryState {
        self.repository.state()
    }

    /// A service over `repository`.
    pub fn new(repository: R) -> (service: Self)
        ensures
            service.state() == repository.state(),
    {
        VaultService { repository }
    }

    /// The repository of the service.
    pub fn repository(&self) -> (repository: &R)
        ensures
            repository.state() == self.state(),
    {
        &self.repository
    }

    /// The repository of the service, for writing.
    pub fn repository_mut(&mut self) -> (repository: &mut R)
        ensures
            repository.state() == old(self).state(),
            final(self).state() == final(repository).state(),
    {
        &mut self.repository
    }

    /// Stores the item that [`build_item`] makes from `new_item`.
    ///
    /// An item that was stored is well formed, has version 1 and the given
    /// identifier, and decrypts under `key` to the payload. A failure
    /// leaves the repository as it was.
    pub fn add_item_with(
        &mut self,
        new_item: NewVaultItem,
        key: &[u8; 32],
        id: u128,
        now: Timestamp,
        nonce: [u8; 12],
    ) -> (r: Result<VaultItem, ChacrabError>)
        ensures
            !sealable(payload_bytes(new_item.payload@).len()) ==> (r matches Err(e) && e@
                == ErrorKind::Crypto),
            r matches Ok(item) ==> {
                &&& item@ == created_item(
                    new_item,
                    chacha20poly1305_seal(key@, nonce@, payload_bytes(new_item.payload@)),
                    nonce@,
                    id,
                    now,
                )
                &&& item@.well_formed()
                &&& chacha20poly1305_open(key@, item@.nonce, item@.encrypted_data) == Some(
                    payload_bytes(new_item.payload@),
                )
                &&& item.encrypted_data@.len() == payload_bytes(new_item.payload@).len() + TAG_SIZE
                &&& final(self).state() == old(self).state().with_item(item@)
            },
            r is Err ==> final(self).state() == old(self).state(),
            r matches Err(e) ==> e@ == add_failure(new_item.payload@),
            blobs_are_valid(old(self).state()) ==> blobs_are_valid(final(self).state()),
    {
        let item = match build_item(new_item, key, id, now, nonce) {
            Ok(item) => item,
            Err(e) => {
                return Err(e);
            },
        };
        match self.repository.upsert_item(&item) {
            Ok(()) => Ok(item),
            Err(e) => Err(e),
        }
    }

    /// Stores a new item with a fresh identifier, a fresh nonce and the
    /// current time.
    ///
    /// An item that was stored is well formed, has version 1, was created
    /// and updated at the same instant, and decrypts under `key` to the
    /// payload. A failure leaves the repository as it was.
    pub fn add_item(&mut self, new_item: NewVaultItem, key: &[u8; 32]) -> (r: Result<
        VaultItem,
        ChacrabError,
    >)
        ensures
            !sealable(payload_bytes(new_item.payload@).len()) ==> (r matches Err(e) && e@
                == ErrorKind::Crypto),
            r matches Ok(item) ==> {
                &&& item@ == created_item(
                    new_item,
                    chacha20poly1305_seal(
                        key@,
                        item@.nonce,
                        payload_bytes(new_item.payload@),
                    ),
                    item@.nonce,
                    item.id,
                    item.created_at,
                )
                &&& item@.well_formed()
                &&& chacha20poly1305_open(key@, item@.nonce, item@.encrypted_data) == Some(
                    payload_bytes(new_item.payload@),
                )
                &&& item.encrypted_data@.len() == payload_bytes(new_item.payload@).len() + TAG_SIZE
                &&& final(self).state() == old(self).state().with_item(item@)
            },
            r is Err ==> final(self).state() == old(self).state(),
            r matches Err(e) ==> e@ == add_failure(new_item.payload@),
            blobs_are_valid(old(self).state()) ==> blobs_are_valid(final(self).state()),
    {
        let id = fresh_id();
        let now = Timestamp::now();
        let nonce = fresh_nonce();
        self.add_item_with(new_item, key, id, now, nonce)
    }

    /// Stores a new password item. See [`VaultService::add_item`].
    pub fn add_password(
        &mut self,
        title: String,
        username: Option<String>,
        url: Option<String>,
        password: String,
        notes: Option<String>,
        key: &[u8; 32],
    ) -> (r: Result<VaultItem, ChacrabError>)
        ensures
            r matches Ok(item) ==> {
                &&& item.item_type == VaultItemType::Password
                &&& item.title@ == title@
                &&& text_view(item.username) == text_view(username)
                &&& text_view(item.url) == text_view(url)
                &&& item.sync_version == 1
                &&& item.created_at == item.updated_at
                &&& item@.well_formed()
                &&& item.nonce@.len() == 12
                &&& chacha20poly1305_open(key@, item@.nonce, item@.encrypted_data) == Some(
                    payload_bytes(password_payload(password@, text_view(notes))),
                )
                &&& item.encrypted_data@.len() == payload_bytes(
                    password_payload(password@, text_view(notes)),
                ).len() + TAG_SIZE
                &&& final(self).state() == old(self).state().with_item(item@)
            },
            !sealable(payload_bytes(password_payload(password@, text_view(notes))).len()) ==> r is Err,
            r matches Err(e) ==> e@ == add_failure(password_payload(password@, text_view(notes))),
            r is Err ==> final(self).state() == old(self).state(),
            blobs_are_valid(old(self).state()) ==> blobs_are_valid(final(self).state()),
    {
        let payload = EncryptedPayload::for_password(password, notes);
        self.add_item(
            NewVaultItem { item_type: VaultItemType::Password, title, username, url, payload },
            key,
        )
    }

    /// Stores a new note. See [`VaultService::add_item`].
    pub fn add_note(&mut self, title: String, notes: String, key: &[u8; 32]) -> (r: Result<
        VaultItem,
        ChacrabError,
    >)
        ensures
            r matches Ok(item) ==> {
                &&& item.item_type == VaultItemType::Note
                &&& item.title@ == title@
                &&& item.username is None
                &&& item.url is None
                &&& item.sync_version == 1
                &&& item.created_at == item.updated_at
                &&& item@.well_formed()
                &&& item.nonce@.len() == 12
                &&& chacha20poly1305_open(key@, item@.nonce, item@.encrypted_data) == Some(
                    payload_bytes(note_payload(notes@)),
                )
                &&& item.encrypted_data@.len() == payload_bytes(note_payload(notes@)).len()
                    + TAG_SIZE
                &&& final(self).state() == old(self).state().with_item(item@)
            },
            !sealable(payload_bytes(note_payload(notes@)).len()) ==> r is Err,
            r matches Err(e) ==> e@ == add_failure(note_payload(notes@)),
            r is Err ==> final(self).state() == old(self).state(),
            blobs_are_valid(old(self).state()) ==> blobs_are_valid(final(self).state()),
    {
        let payload = EncryptedPayload::for_note(notes);
        self.add_item(
            NewVaultItem {
                item_type: VaultItemType::Note,
                title,
                username: None,
                url: None,
                payload,
            },
            key,
        )
    }

    /// Every stored item, the most recently updated first.
    pub fn list(&self) -> (r: Result<Vec<VaultItem>, ChacrabError>)
        ensures
            r matches Ok(listed) ==> crate::repository::lists_items(listed@, self.state().items)
                && crate::repository::newest_first(listed@),
            r matches Err(e) ==> e@ == ErrorKind::Storage,
    {
        self.repository.list_items()
    }

    /// The item `id` with its decrypted payload. The plaintext bytes are
    /// wiped before the call returns.
    ///
    /// Fails with `NotFound` for an absent item, with `Crypto` on a tag
    /// mismatch and with `Serialization` on a plaintext that encodes no
    /// payload.
    pub fn show_decrypted(&self, id: u128, key: &[u8; 32]) -> (r: Result<
        (VaultItem, EncryptedPayload),
        ChacrabError,
    >)
        ensures
            !self.state().items.contains_key(id) ==> r is Err,
            r matches Ok((item, payload)) ==> {
                &&& self.state().items.contains_key(id)
                &&& item@ == self.state().items[id]
                &&& payload_in(item@, key@) == Ok::<PayloadView, ErrorKind>(payload@)
                &&& payload@.well_formed()
            },
            r matches Err(e) ==> show_failure(self.state(), id, key@, e@),
            self.state().items.contains_key(id) && !(payload_in(self.state().items[id], key@)
                is Ok) ==> r is Err,
    {
        let item = match self.repository.get_item(id) {
            Ok(item) => item,
            Err(e) => {
                return Err(e);
            },
        };
        match decrypt_payload(&item, key) {
            Ok(payload) => Ok((item, payload)),
            Err(e) => Err(e),
        }
    }
}

/// What decrypting an item under `key` gives: its payload, `Crypto` where
/// the tag does not match and `Serialization` where the plaintext encodes
/// no payload.
pub open spec fn payload_in(item: VaultItemView, key: Seq<u8>) -> Result<PayloadView, ErrorKind> {
    match chacha20poly1305_open(key, item.nonce, item.encrypted_data) {
        None => Err(ErrorKind::Crypto),
        Some(plaintext) => match payload_from_json(plaintext) {
            Some(payload) => Ok(payload),
            None => Err(ErrorKind::Serialization),
        },
    }
}

/// `kind` is an error that showing `id` may end in: `NotFound` only for an
/// absent item, the error of [`payload_in`] for one that is held, and
/// `Storage` when the repository fails.
pub open spec fn show_failure(state: RepositoryState, id: u128, key: Seq<u8>, kind: ErrorKind) -> bool {
    ||| kind == ErrorKind::Storage
    ||| kind == ErrorKind::NotFound && !state.items.contains_key(id)
    ||| state.items.contains_key(id) && payload_in(state.items[id], key) == Err::<
        PayloadView,
        ErrorKind,
    >(kind)
}

/// The changes that an update of a note asks for.
pub open spec fn note_changes(title: Option<String>, notes: Option<String>) -> ItemChanges {
    ItemChanges {
        title: text_view(title),
        username: None,
        url: None,
        password: None,
        notes: match notes {
            Some(text) => Some(Some(text@)),
            None => None,
        },
    }
}

/// The changes that an update of a password item asks for.
pub open spec fn password_changes(
    title: Option<String>,
    username: Option<String>,
    url: Option<String>,
    password: Option<String>,
    notes: Option<Option<String>>,
) -> ItemChanges {
    ItemChanges {
        title: text_view(title),
        username: text_view(username),
        url: text_view(url),
        password: text_view(password),
        notes: nested_text_view(notes),
    }
}

impl<R: VaultRepository> VaultService<R> {
    /// Updates the item `id` of the kind `expected` as [`revise_item`] says
    /// and stores the result.
    ///
    /// On success the stored item is the [`revision`] of the one that was
    /// stored before; its version is higher unless the old one was the
    /// largest there is. A failure leaves the repository as it was: an
    /// absent item fails with an error of the repository, a revision that is
    /// turned away with the error of the revision.
    pub fn update_item_with(
        &mut self,
        id: u128,
        expected: VaultItemType,
        title: Option<String>,
        username: Option<String>,
        url: Option<String>,
        password: Option<String>,
        notes: Option<Option<String>>,
        action: &str,
        key: &[u8; 32],
        now: Timestamp,
        nonce: [u8; 12],
    ) -> (r: Result<VaultItem, ChacrabError>)
        ensures
            !old(self).state().items.contains_key(id) ==> r is Err,
            old(self).state().items.contains_key(id) && revision(
                old(self).state().items[id],
                expected,
                password_changes(title, username, url, password, notes),
                action@,
                key@,
                now,
                nonce@,
            ) is Err ==> r is Err,
            r matches Ok(item) ==> {
                &&& old(self).state().items.contains_key(id)
                &&& updated(
                    old(self).state().items[id],
                    item@,
                    expected,
                    password_changes(title, username, url, password, notes),
                    action@,
                    key@,
                    now,
                    nonce@,
                )
                &&& item.id == id
                &&& final(self).state() == old(self).state().with_item(item@)
            },
            r is Err ==> final(self).state() == old(self).state(),
            r matches Err(e) ==> update_failure(
                old(self).state(),
                id,
                expected,
                password_changes(title, username, url, password, notes),
                action@,
                key@,
                now,
                nonce@,
                e@,
            ),
            blobs_are_valid(old(self).state()) ==> blobs_are_valid(final(self).state()),
    {
        let item = match self.repository.get_item(id) {
            Ok(item) => item,
            Err(e) => {
                return Err(e);
            },
        };
        let revised = match revise_item(
            item,
            expected,
            title,
            username,
            url,
            password,
            notes,
            action,
            key,
            now,
            nonce,
        ) {
            Ok(revised) => revised,
            Err(e) => {
                return Err(e);
            },
        };
        match self.repository.upsert_item(&revised) {
            Ok(()) => Ok(revised),
            Err(e) => Err(e),
        }
    }

    /// Updates a password item: only the fields that the caller provides
    /// change, `notes` can also be cleared, the audit trail records
    /// `update_password`, and the payload is encrypted with a fresh nonce.
    ///
    /// Fails with `Config` for an item that is no password item, with
    /// `Crypto` or `Serialization` where the payload cannot be read, and
    /// with the error of the repository where the item is absent or cannot
    /// be stored. A failure leaves the repository as it was.
    pub fn update_password(
        &mut self,
        id: u128,
        title: Option<String>,
        username: Option<String>,
        url: Option<String>,
        password: Option<String>,
        notes: Option<Option<String>>,
        key: &[u8; 32],
    ) -> (r: Result<VaultItem, ChacrabError>)
        ensures
            !old(self).state().items.contains_key(id) ==> r is Err,
            old(self).state().items.contains_key(id) && old(self).state().items[id].item_type
                != VaultItemType::Password ==> r is Err,
            r matches Ok(item) ==> {
                &&& old(self).state().items.contains_key(id)
                &&& exists|now: Timestamp| #[trigger]
                    updated(
                        old(self).state().items[id],
                        item@,
                        VaultItemType::Password,
                        password_changes(title, username, url, password, notes),
                        "update_password"@,
                        key@,
                        now,
                        item@.nonce,
                    )
                &&& item.id == id
                &&& item@.well_formed()
                &&& old(self).state().items[id].sync_version < u64::MAX ==> item.sync_version
                    > old(self).state().items[id].sync_version
                &&& final(self).state() == old(self).state().with_item(item@)
            },
            r is Err ==> final(self).state() == old(self).state(),
            r matches Err(e) ==> exists|now: Timestamp, nonce: Seq<u8>|
                nonce.len() == 12 && #[trigger] update_failure(
                    old(self).state(),
                    id,
                    VaultItemType::Password,
                    password_changes(title, username, url, password, notes),
                    "update_password"@,
                    key@,
                    now,
                    nonce,
                    e@,
                ),
            blobs_are_valid(old(self).state()) ==> blobs_are_valid(final(self).state()),
    {
        let now = Timestamp::now();
        let nonce = fresh_nonce();
        let ghost changes = password_changes(title, username, url, password, notes);
        let r = self.update_item_with(
            id,
            VaultItemType::Password,
            title,
            username,
            url,
            password,
            notes,
            "update_password",
            key,
            now,
            nonce,
        );
        proof {
            if r is Ok {
                assert(updated(
                    old(self).state().items[id],
                    r->Ok_0@,
                    VaultItemType::Password,
                    changes,
                    "update_password"@,
                    key@,
                    now,
                    r->Ok_0@.nonce,
                ));
            }
            if r is Err {
                let e = r->Err_0;
                assert(update_failure(
                    old(self).state(),
                    id,
                    VaultItemType::Password,
                    changes,
                    "update_password"@,
                    key@,
                    now,
                    nonce@,
                    e@,
                ));
            }
        }
        r
    }

    /// Updates a note: only the fields that the caller provides change, the
    /// audit trail records `update_note`, and the payload is encrypted with
    /// a fresh nonce.
    ///
    /// Fails with `Config` for an item that is no note, with `Crypto` or
    /// `Serialization` where the payload cannot be read, and with the error
    /// of the repository where the item is absent or cannot be stored. A
    /// failure leaves the repository as it was.
    pub fn update_note(
        &mut self,
        id: u128,
        title: Option<String>,
        notes: Option<String>,
        key: &[u8; 32],
    ) -> (r: Result<VaultItem, ChacrabError>)
        ensures
            !old(self).state().items.contains_key(id) ==> r is Err,
            old(self).state().items.contains_key(id) && old(self).state().items[id].item_type
                != VaultItemType::Note ==> r is Err,
            r matches Ok(item) ==> {
                &&& old(self).state().items.contains_key(id)
                &&& exists|now: Timestamp| #[trigger]
                    updated(
                        old(self).state().items[id],
                        item@,
                        VaultItemType::Note,
                        note_changes(title, notes),
                        "update_note"@,
                        key@,
                        now,
                        item@.nonce,
                    )
                &&& item.id == id
                &&& item@.well_formed()
                &&& old(self).state().items[id].sync_version < u64::MAX ==> item.sync_version
                    > old(self).state().items[id].sync_version
                &&& final(self).state() == old(self).state().with_item(item@)
            },
            r is Err ==> final(self).state() == old(self).state(),
            r matches Err(e) ==> exists|now: Timestamp, nonce: Seq<u8>|
                nonce.len() == 12 && #[trigger] update_failure(
                    old(self).state(),
                    id,
                    VaultItemType::Note,
                    note_changes(title, notes),
                    "update_note"@,
                    key@,
                    now,
                    nonce,
                    e@,
                ),
            blobs_are_valid(old(self).state()) ==> blobs_are_valid(final(self).state()),
    {
        let now = Timestamp::now();
        let nonce = fresh_nonce();
        let ghost changes = note_changes(title, notes);
        let next_notes: Option<Option<String>> = match notes {
            Some(text) => Some(Some(text)),
            None => None,
        };
        let r = self.update_item_with(
            id,
            VaultItemType::Note,
            title,
            None,
            None,
            None,
            next_notes,
            "update_note",
            key,
            now,
            nonce,
        );
        proof {
            if r is Ok {
                assert(updated(
                    old(self).state().items[id],
                    r->Ok_0@,
                    VaultItemType::Note,
                    changes,
                    "update_note"@,
                    key@,
                    now,
                    r->Ok_0@.nonce,
                ));
            }
            if r is Err {
                let e = r->Err_0;
                assert(update_failure(
                    old(self).state(),
                    id,
                    VaultItemType::Note,
                    changes,
                    "update_note"@,
                    key@,
                    now,
                    nonce@,
                    e@,
                ));
            }
        }
        r
    }

    /// Deletes the item `id` and leaves a tombstone dated `now` in its
    /// place, at the version that [`next_version`] gives. An absent item is
    /// no error: [`known_item_version`] takes it for version 0,
    /// [`removal_outcome`] lets its removal pass, and the tombstone that
    /// [`deletion_receipt`] makes is written all the same.
    ///
    /// A failing repository call ends the deletion with its error. The
    /// tombstones are then as they were, and the item is either still
    /// stored or already removed.
    pub fn delete_at(&mut self, id: u128, now: Timestamp) -> (r: Result<(), ChacrabError>)
        ensures
            r is Ok ==> final(self).state() == old(self).state().without_item(id).with_tombstone(
                SyncTombstone {
                    id,
                    deleted_at: now,
                    sync_version: next_version(old(self).state(), id),
                },
            ),
            r is Err ==> final(self).state() == old(self).state() || final(self).state() == old(self).state().without_item(id),
            r matches Err(e) ==> e@ == ErrorKind::Storage,
            blobs_are_valid(old(self).state()) ==> blobs_are_valid(final(self).state()),
    {
        let item_version: u64 = match known_item_version(self.repository.get_item(id)) {
            Ok(version) => version,
            Err(e) => {
                return Err(e);
            },
        };
        let tombstones = match self.repository.list_tombstones() {
            Ok(listed) => listed,
            Err(e) => {
                return Err(e);
            },
        };
        let tombstone = deletion_receipt(id, item_version, &tombstones, now);
        proof {
            lemma_listed_version_is_stored(tombstones@, self.repository.state().tombstones, id);
        }
        match removal_outcome(self.repository.delete_item(id)) {
            Ok(()) => {},
            Err(e) => {
                return Err(e);
            },
        }
        assert(self.repository.state().items =~= old(self).state().items.remove(id));
        assert(self.repository.state() == old(self).state().without_item(id));
        self.repository.upsert_tombstone(&tombstone)
    }

    /// Deletes the item `id` and leaves a tombstone dated with the current
    /// time in its place. See [`VaultService::delete_at`].
    pub fn delete(&mut self, id: u128) -> (r: Result<(), ChacrabError>)
        ensures
            r is Ok ==> !final(self).state().items.contains_key(id) && final(self).state().tombstones.contains_key(id) && final(self).state().tombstones[id].sync_version
                == next_version(old(self).state(), id) && final(self).state().items == old(self).state().items.remove(id) && final(self).state().tombstones.remove(id) == old(self).state().tombstones.remove(id) && final(self).state().auth == old(self).state().auth,
            r is Err ==> final(self).state() == old(self).state() || final(self).state() == old(self).state().without_item(id),
            r matches Err(e) ==> e@ == ErrorKind::Storage,
            blobs_are_valid(old(self).state()) ==> blobs_are_valid(final(self).state()),
    {
        let now = Timestamp::now();
        let r = self.delete_at(id, now);
        proof {
            if r is Ok {
                assert(self.state().tombstones.remove(id) =~= old(self).state().tombstones.remove(id));
            }
        }
        r
    }
}

} // verus!
