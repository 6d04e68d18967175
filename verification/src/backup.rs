//! The portable encrypted backup: a self-describing envelope around the
//! encrypted item list, with an integrity checksum.

use vstd::prelude::*;
use vstd::string::StrSliceExecFns;
use vstd::utf8::encode_utf8;
use crate::crypto::fresh_nonce;
use crate::ids::{id_from_text, id_to_text, uuid_text, uuid_value};
use crate::json::{
    array_json, find_member, json_array_elements, json_object_members, json_optional_string,
    json_string_literal, member_value, members_view, object_json, optional_string_json,
    optional_string_text, parse_array, parse_object, parse_optional_string, render_array,
    render_object, string_literal, texts_view, JsonMember,
};
use crate::models::{
    concatenated, rfc3339_text, stored_instant, text_view, Timestamp, VaultItem, VaultItemView,
};
use crate::numbers::{decimal_text, parse_u64, render_u64, u64_value};
use crate::payload::optional_member;
use crate::storage::{item_type_named, item_type_text, item_type_to_str, parse_item_type};
use crate::crypto::{
    chacha20poly1305_open, chacha20poly1305_seal, decrypt, encrypt_with_nonce, sealable, TAG_SIZE,
};
use crate::encoding::{
    base64_bytes, base64_decode, base64_encodable, base64_encode, base64_text, hex_encode,
    hex_lower, sha256, sha256_digest,
};
use crate::errors::{ChacrabError, ErrorKind};
use crate::repository::{RepositoryState, VaultRepository};

verus! {

/// The only format version that backups are written and read with.
pub const BACKUP_FORMAT_VERSION: u32 = 1;

/// The mathematical value of an [`EncryptedBackupFile`].
pub struct BackupFileView {
    pub format_version: u32,
    pub nonce_b64: Seq<char>,
    pub ciphertext_b64: Seq<char>,
    pub checksum_hex: Seq<char>,
}

/// The envelope of a backup as it is written to disk.
#[derive(Debug)]
pub struct EncryptedBackupFile {
    pub format_version: u32,
    /// The 12-byte nonce in base64.
    pub nonce_b64: String,
    /// The ciphertext in base64.
    pub ciphertext_b64: String,
    /// The SHA-256 of nonce and ciphertext, in 64 lowercase hexadecimal
    /// digits.
    pub checksum_hex: String,
}

impl View for EncryptedBackupFile {
    type V = BackupFileView;

    open spec fn view(&self) -> BackupFileView {
        BackupFileView {
            format_version: self.format_version,
            nonce_b64: self.nonce_b64@,
            ciphertext_b64: self.ciphertext_b64@,
            checksum_hex: self.checksum_hex@,
        }
    }
}

/// The reason with which a backup of another format version is turned
/// away.
pub open spec fn unsupported_version_reason() -> Seq<char> {
    "unsupported backup format version"@
}

/// The checksum of an envelope: the SHA-256 of the nonce followed by the
/// ciphertext, in lowercase hexadecimal.
pub open spec fn backup_checksum(nonce: Seq<u8>, ciphertext: Seq<u8>) -> Seq<char> {
    hex_lower(sha256_digest(nonce + ciphertext))
}

/// The envelope around `plaintext`, encrypted under `key` and `nonce`.
pub open spec fn sealed_backup(plaintext: Seq<u8>, key: Seq<u8>, nonce: Seq<u8>) -> BackupFileView {
    let ciphertext = chacha20poly1305_seal(key, nonce, plaintext);
    BackupFileView {
        format_version: BACKUP_FORMAT_VERSION,
        nonce_b64: base64_text(nonce),
        ciphertext_b64: base64_text(ciphertext),
        checksum_hex: backup_checksum(nonce, ciphertext),
    }
}

/// What opening an envelope under `key` gives: the plaintext, or the kind
/// of the first check that fails. The format version is checked first,
/// then the base64 of nonce and ciphertext and the length of the nonce,
/// then the checksum, and last the authentication tag.
pub open spec fn opened_backup(file: BackupFileView, key: Seq<u8>) -> Result<Seq<u8>, ErrorKind> {
    if file.format_version != BACKUP_FORMAT_VERSION {
        Err(ErrorKind::Config(unsupported_version_reason()))
    } else {
        match base64_bytes(file.nonce_b64) {
            None => Err(ErrorKind::Serialization),
            Some(nonce) => if nonce.len() != 12 {
                Err(ErrorKind::Serialization)
            } else {
                match base64_bytes(file.ciphertext_b64) {
                    None => Err(ErrorKind::Serialization),
                    Some(ciphertext) => if backup_checksum(nonce, ciphertext) != file.checksum_hex {
                        Err(ErrorKind::Crypto)
                    } else {
                        match chacha20poly1305_open(key, nonce, ciphertext) {
                            None => Err(ErrorKind::Crypto),
                            Some(plaintext) => Ok(plaintext),
                        }
                    },
                }
            },
        }
    }
}

/// The plaintext lengths that a backup can take: what one encryption can
/// seal, with a ciphertext whose base64 text fits into one allocation.
pub open spec fn backup_fits(len: nat) -> bool {
    sealable(len) && base64_encodable(len + TAG_SIZE as nat)
}

/// The checksum of an envelope with the given nonce and ciphertext.
fn checksum_of(nonce: &[u8], ciphertext: &[u8]) -> (checksum: String)
    ensures
        checksum@ == backup_checksum(nonce@, ciphertext@),
{
    let joined = concatenated(nonce, ciphertext);
    let digest = sha256(joined.as_slice());
    hex_encode(digest.as_slice())
}

/// Encrypts `plaintext` under `key` and `nonce` and wraps the ciphertext
/// into an envelope.
///
/// Fails with `Crypto` exactly on a plaintext too long for a backup.
/// [`open_backup`] under the same key gives the plaintext back.
pub fn seal_backup(plaintext: &[u8], key: &[u8; 32], nonce: [u8; 12]) -> (r: Result<
    EncryptedBackupFile,
    ChacrabError,
>)
    ensures
        r is Ok <==> backup_fits(plaintext@.len()),
        r matches Ok(file) ==> file@ == sealed_backup(plaintext@, key@, nonce@) && opened_backup(
            file@,
            key@,
        ) == Ok::<Seq<u8>, ErrorKind>(plaintext@),
        r matches Err(e) ==> e@ == ErrorKind::Crypto,
{
    let encrypted = match encrypt_with_nonce(key, nonce, plaintext) {
        Ok(blob) => blob,
        Err(e) => {
            return Err(e);
        },
    };
    if encrypted.ciphertext.len() > (isize::MAX as usize) / 4 * 3 {
        return Err(ChacrabError::Crypto);
    }
    let checksum_hex = checksum_of(encrypted.nonce.as_slice(), encrypted.ciphertext.as_slice());
    let nonce_b64 = base64_encode(encrypted.nonce.as_slice());
    let ciphertext_b64 = base64_encode(encrypted.ciphertext.as_slice());
    Ok(
        EncryptedBackupFile {
            format_version: BACKUP_FORMAT_VERSION,
            nonce_b64,
            ciphertext_b64,
            checksum_hex,
        },
    )
}

/// Opens an envelope under `key`, as [`opened_backup`] says.
///
/// Fails with `Config` on another format version, with `Serialization` on
/// malformed base64 or a nonce that has not 12 bytes, and with `Crypto` on
/// a wrong checksum or a tag mismatch. The checksum is compared before any
/// decryption is attempted.
pub fn open_backup(file: &EncryptedBackupFile, key: &[u8; 32]) -> (r: Result<Vec<u8>, ChacrabError>)
    ensures
        match r {
            Ok(plaintext) => opened_backup(file@, key@) == Ok::<Seq<u8>, ErrorKind>(plaintext@),
            Err(e) => opened_backup(file@, key@) == Err::<Seq<u8>, ErrorKind>(e@),
        },
{
    if file.format_version != BACKUP_FORMAT_VERSION {
        return Err(ChacrabError::config("unsupported backup format version"));
    }
    let nonce_bytes = match base64_decode(file.nonce_b64.as_str()) {
        Some(bytes) => bytes,
        None => {
            return Err(ChacrabError::Serialization);
        },
    };
    let nonce = match crate::storage::nonce_from_blob(nonce_bytes.as_slice()) {
        Ok(nonce) => nonce,
        Err(_) => {
            return Err(ChacrabError::Serialization);
        },
    };
    let ciphertext = match base64_decode(file.ciphertext_b64.as_str()) {
        Some(bytes) => bytes,
        None => {
            return Err(ChacrabError::Serialization);
        },
    };
    let expected = checksum_of(nonce_bytes.as_slice(), ciphertext.as_slice());
    if expected != file.checksum_hex {
        return Err(ChacrabError::Crypto);
    }
    decrypt(key, &nonce, ciphertext.as_slice())
}

/// The mathematical value of a [`BackupPayload`].
pub struct BackupPayloadView {
    pub schema_version: u32,
    pub exported_at: Seq<char>,
    pub items: Seq<VaultItemView>,
}

/// The plaintext of a backup: the items with their stored ciphertext and
/// metadata as they are.
#[derive(Debug)]
pub struct BackupPayload {
    pub schema_version: u32,
    /// The instant of the export in RFC 3339.
    pub exported_at: String,
    pub items: Vec<VaultItem>,
}

/// The views of `items`, in order.
pub open spec fn items_view(items: Seq<VaultItem>) -> Seq<VaultItemView> {
    Seq::new(items.len(), |i: int| items[i]@)
}

impl View for BackupPayload {
    type V = BackupPayloadView;

    open spec fn view(&self) -> BackupPayloadView {
        BackupPayloadView {
            schema_version: self.schema_version,
            exported_at: self.exported_at@,
            items: items_view(self.items@),
        }
    }
}

/// The decimal texts of `bytes`, in order.
pub open spec fn byte_texts(bytes: Seq<u8>) -> Seq<Seq<char>> {
    Seq::new(bytes.len(), |i: int| decimal_text(bytes[i] as nat))
}

/// A byte string as a JSON array of numbers.
pub open spec fn bytes_json(bytes: Seq<u8>) -> Seq<char> {
    array_json(byte_texts(bytes))
}

/// The JSON object that encodes an item in a backup.
pub open spec fn item_json(item: VaultItemView) -> Seq<char> {
    object_json(
        seq![
            ("id"@, json_string_literal(uuid_text(item.id))),
            ("type"@, json_string_literal(item_type_text(item.item_type))),
            ("title"@, json_string_literal(item.title)),
            ("username"@, optional_string_json(item.username)),
            ("url"@, optional_string_json(item.url)),
            ("encrypted_data"@, bytes_json(item.encrypted_data)),
            ("nonce"@, bytes_json(item.nonce)),
            ("sync_version"@, decimal_text(item.sync_version as nat)),
            (
                "created_at"@,
                json_string_literal(
                    rfc3339_text(item.created_at.seconds(), item.created_at.subsec()),
                ),
            ),
            (
                "updated_at"@,
                json_string_literal(
                    rfc3339_text(item.updated_at.seconds(), item.updated_at.subsec()),
                ),
            ),
        ],
    )
}

/// The JSON texts of `items`, in order.
pub open spec fn item_texts(items: Seq<VaultItemView>) -> Seq<Seq<char>> {
    Seq::new(items.len(), |i: int| item_json(items[i]))
}

/// The JSON object that is the plaintext of a backup.
pub open spec fn backup_json(payload: BackupPayloadView) -> Seq<char> {
    object_json(
        seq![
            ("schema_version"@, decimal_text(payload.schema_version as nat)),
            ("exported_at"@, json_string_literal(payload.exported_at)),
            ("items"@, array_json(item_texts(payload.items))),
        ],
    )
}

/// The string under `key`; `None` where the object has no such member or
/// holds no string there.
pub open spec fn required_string(members: Seq<(Seq<char>, Seq<char>)>, key: Seq<char>) -> Option<
    Seq<char>,
> {
    match member_value(members, key) {
        Some(text) => match json_optional_string(text) {
            Some(Some(value)) => Some(value),
            _ => None,
        },
        None => None,
    }
}

/// The byte that a JSON text stands for, if it is a number up to 255.
pub open spec fn byte_value(text: Seq<char>) -> Option<u8> {
    match u64_value(text) {
        Some(value) => if value <= 255 {
            Some(value as u8)
        } else {
            None
        },
        None => None,
    }
}

/// The byte string that a JSON text stands for, if it is an array of
/// numbers up to 255.
pub open spec fn json_bytes(text: Seq<char>) -> Option<Seq<u8>> {
    match json_array_elements(text) {
        Some(elements) => if forall|i: int|
            0 <= i < elements.len() ==> byte_value(#[trigger] elements[i]) is Some {
            Some(Seq::new(elements.len(), |i: int| byte_value(elements[i])->0))
        } else {
            None
        },
        None => None,
    }
}

/// The byte string under `key`.
pub open spec fn bytes_member(members: Seq<(Seq<char>, Seq<char>)>, key: Seq<char>) -> Option<
    Seq<u8>,
> {
    match member_value(members, key) {
        Some(text) => json_bytes(text),
        None => None,
    }
}

/// The version of an item in a backup: the number under `sync_version`,
/// and 1 where the object has no such member.
pub open spec fn version_member(members: Seq<(Seq<char>, Seq<char>)>) -> Option<u64> {
    match member_value(members, "sync_version"@) {
        Some(text) => u64_value(text),
        None => Some(1),
    }
}

/// The item that the members of a JSON object encode.
pub open spec fn item_of_members(members: Seq<(Seq<char>, Seq<char>)>) -> Option<VaultItemView> {
    match (
        required_string(members, "id"@),
        required_string(members, "type"@),
        required_string(members, "title"@),
        optional_member(members, "username"@),
        optional_member(members, "url"@),
    ) {
        (Some(id_text), Some(type_text), Some(title), Some(username), Some(url)) => match (
            bytes_member(members, "encrypted_data"@),
            bytes_member(members, "nonce"@),
            version_member(members),
            required_string(members, "created_at"@),
            required_string(members, "updated_at"@),
        ) {
            (Some(encrypted_data), Some(nonce), Some(sync_version), Some(created), Some(updated)) => match (
                uuid_value(id_text),
                item_type_named(type_text),
                stored_instant(created),
                stored_instant(updated),
            ) {
                (Some(id), Some(item_type), Some(created_at), Some(updated_at)) => if nonce.len()
                    == 12 {
                    Some(
                        VaultItemView {
                            id,
                            item_type,
                            title,
                            username,
                            url,
                            encrypted_data,
                            nonce,
                            sync_version,
                            created_at,
                            updated_at,
                        },
                    )
                } else {
                    None
                },
                _ => None,
            },
            _ => None,
        },
        _ => None,
    }
}

/// The item that a JSON text encodes: an object with the identifier, the
/// kind, the title and both timestamps as strings, `username` and `url` as
/// strings, `null` or absent, the ciphertext and a nonce of twelve bytes as
/// arrays of numbers, and the version as a number, 1 where it is absent.
pub open spec fn json_item(text: Seq<char>) -> Option<VaultItemView> {
    match json_object_members(encode_utf8(text)) {
        Some(members) => item_of_members(members),
        None => None,
    }
}

/// The schema version under `schema_version`, if it is a number of 32
/// bits.
pub open spec fn schema_member(members: Seq<(Seq<char>, Seq<char>)>) -> Option<u32> {
    match member_value(members, "schema_version"@) {
        Some(text) => match u64_value(text) {
            Some(value) => if value <= u32::MAX {
                Some(value as u32)
            } else {
                None
            },
            None => None,
        },
        None => None,
    }
}

/// The items that the array under `items` encodes.
pub open spec fn items_member(members: Seq<(Seq<char>, Seq<char>)>) -> Option<Seq<VaultItemView>> {
    match member_value(members, "items"@) {
        Some(text) => match json_array_elements(text) {
            Some(elements) => if forall|i: int|
                0 <= i < elements.len() ==> json_item(#[trigger] elements[i]) is Some {
                Some(Seq::new(elements.len(), |i: int| json_item(elements[i])->0))
            } else {
                None
            },
            None => None,
        },
        None => None,
    }
}

/// The payload that the plaintext of a backup encodes.
pub open spec fn json_backup(document: Seq<u8>) -> Option<BackupPayloadView> {
    match json_object_members(document) {
        Some(members) => match (
            schema_member(members),
            required_string(members, "exported_at"@),
            items_member(members),
        ) {
            (Some(schema_version), Some(exported_at), Some(items)) => Some(
                BackupPayloadView { schema_version, exported_at, items },
            ),
            _ => None,
        },
        None => None,
    }
}

/// What importing an envelope under `key` gives: the payload, or the kind
/// of the error. A plaintext that encodes no payload fails with
/// `Serialization`.
pub open spec fn imported_backup(file: BackupFileView, key: Seq<u8>) -> Result<
    BackupPayloadView,
    ErrorKind,
> {
    match opened_backup(file, key) {
        Err(kind) => Err(kind),
        Ok(plaintext) => decoded_backup(plaintext),
    }
}

/// What the plaintext of a backup decodes to: the payload, or
/// `Serialization` for a plaintext that encodes none.
pub open spec fn decoded_backup(plaintext: Seq<u8>) -> Result<BackupPayloadView, ErrorKind> {
    match json_backup(plaintext) {
        Some(payload) => Ok(payload),
        None => Err(ErrorKind::Serialization),
    }
}

fn string_member(members: &Vec<JsonMember>, key: &str) -> (value: Option<String>)
    ensures
        text_view(value) == required_string(members_view(members@), key@),
{
    match find_member(members, key) {
        Some(at) => match parse_optional_string(members[at].value.as_str()) {
            Ok(Some(value)) => Some(value),
            _ => None,
        },
        None => None,
    }
}

fn optional_string_member(members: &Vec<JsonMember>, key: &str) -> (value: Option<Option<String>>)
    ensures
        crate::vault::nested_text_view(value) == optional_member(members_view(members@), key@),
{
    match find_member(members, key) {
        Some(at) => match parse_optional_string(members[at].value.as_str()) {
            Ok(value) => Some(value),
            Err(_) => None,
        },
        None => Some(None),
    }
}

fn bytes_from_json(text: &str) -> (bytes: Option<Vec<u8>>)
    ensures
        match bytes {
            Some(decoded) => json_bytes(text@) == Some(decoded@),
            None => json_bytes(text@) is None,
        },
{
    let elements = match parse_array(text) {
        Ok(elements) => elements,
        Err(_) => {
            return None;
        },
    };
    let mut bytes: Vec<u8> = Vec::new();
    let mut i: usize = 0;
    while i < elements.len()
        invariant
            i <= elements.len(),
            bytes.len() == i,
            json_array_elements(text@) == Some(texts_view(elements@)),
            forall|k: int| 0 <= k < i ==> byte_value(#[trigger] texts_view(elements@)[k]) == Some(bytes[k]),
        decreases elements.len() - i,
    {
        match parse_u64(elements[i].as_str()) {
            Some(value) => {
                if value > 255 {
                    assert(byte_value(texts_view(elements@)[i as int]) is None);
                    return None;
                }
                bytes.push(value as u8);
            },
            None => {
                assert(byte_value(texts_view(elements@)[i as int]) is None);
                return None;
            },
        }
        i += 1;
    }
    assert(bytes@ =~= Seq::new(
        texts_view(elements@).len(),
        |k: int| byte_value(texts_view(elements@)[k])->0,
    ));
    Some(bytes)
}

fn bytes_at(members: &Vec<JsonMember>, key: &str) -> (bytes: Option<Vec<u8>>)
    ensures
        match bytes {
            Some(decoded) => bytes_member(members_view(members@), key@) == Some(decoded@),
            None => bytes_member(members_view(members@), key@) is None,
        },
{
    match find_member(members, key) {
        Some(at) => bytes_from_json(members[at].value.as_str()),
        None => None,
    }
}

fn bytes_to_json(bytes: &[u8]) -> (text: String)
    ensures
        text@ == bytes_json(bytes@),
{
    let mut texts: Vec<String> = Vec::new();
    let mut i: usize = 0;
    while i < bytes.len()
        invariant
            i <= bytes.len(),
            texts.len() == i,
            forall|k: int| 0 <= k < i ==> (#[trigger] texts[k])@ == decimal_text(bytes[k] as nat),
        decreases bytes.len() - i,
    {
        texts.push(render_u64(bytes[i] as u64));
        i += 1;
    }
    assert(texts_view(texts@) =~= byte_texts(bytes@));
    render_array(&texts)
}

fn member(key: &str, value: String) -> (made: JsonMember)
    ensures
        made@ == (key@, value@),
{
    JsonMember { key: key.to_owned(), value }
}

/// The JSON object that encodes `item` in a backup.
pub fn item_to_json(item: &VaultItem) -> (text: String)
    ensures
        text@ == item_json(item@),
{
    let mut members: Vec<JsonMember> = Vec::new();
    members.push(member("id", string_literal(id_to_text(item.id).as_str())));
    members.push(member("type", string_literal(item_type_to_str(&item.item_type))));
    members.push(member("title", string_literal(item.title.as_str())));
    members.push(member("username", optional_string_text(&item.username)));
    members.push(member("url", optional_string_text(&item.url)));
    members.push(member("encrypted_data", bytes_to_json(item.encrypted_data.as_slice())));
    members.push(member("nonce", bytes_to_json(item.nonce.as_slice())));
    members.push(member("sync_version", render_u64(item.sync_version)));
    members.push(member("created_at", string_literal(item.created_at.to_rfc3339().as_str())));
    members.push(member("updated_at", string_literal(item.updated_at.to_rfc3339().as_str())));
    assert(members_view(members@) =~= seq![
        ("id"@, json_string_literal(uuid_text(item.id))),
        ("type"@, json_string_literal(item_type_text(item.item_type))),
        ("title"@, json_string_literal(item@.title)),
        ("username"@, optional_string_json(item@.username)),
        ("url"@, optional_string_json(item@.url)),
        ("encrypted_data"@, bytes_json(item@.encrypted_data)),
        ("nonce"@, bytes_json(item@.nonce)),
        ("sync_version"@, decimal_text(item.sync_version as nat)),
        (
            "created_at"@,
            json_string_literal(rfc3339_text(item.created_at.seconds(), item.created_at.subsec())),
        ),
        (
            "updated_at"@,
            json_string_literal(rfc3339_text(item.updated_at.seconds(), item.updated_at.subsec())),
        ),
    ]);
    render_object(&members)
}

/// The item that a JSON text encodes, as [`json_item`] says.
pub fn item_from_json(text: &str) -> (item: Option<VaultItem>)
    ensures
        match item {
            Some(decoded) => json_item(text@) == Some(decoded@),
            None => json_item(text@) is None,
        },
{
    let members = match parse_object(text.as_bytes()) {
        Ok(members) => members,
        Err(_) => {
            return None;
        },
    };
    let id_text = string_member(&members, "id");
    let type_text = string_member(&members, "type");
    let title = string_member(&members, "title");
    let username = optional_string_member(&members, "username");
    let url = optional_string_member(&members, "url");
    let (id_text, type_text, title, username, url) = match (id_text, type_text, title, username, url) {
        (Some(a), Some(b), Some(c), Some(d), Some(e)) => (a, b, c, d, e),
        _ => {
            return None;
        },
    };
    let encrypted_data = bytes_at(&members, "encrypted_data");
    let nonce_bytes = bytes_at(&members, "nonce");
    let sync_version: Option<u64> = match find_member(&members, "sync_version") {
        Some(at) => parse_u64(members[at].value.as_str()),
        None => Some(crate::models::default_sync_version()),
    };
    let created = string_member(&members, "created_at");
    let updated = string_member(&members, "updated_at");
    let (encrypted_data, nonce_bytes, sync_version, created, updated) = match (
        encrypted_data,
        nonce_bytes,
        sync_version,
        created,
        updated,
    ) {
        (Some(a), Some(b), Some(c), Some(d), Some(e)) => (a, b, c, d, e),
        _ => {
            return None;
        },
    };
    let id = id_from_text(id_text.as_str());
    let item_type = match parse_item_type(type_text.as_str()) {
        Ok(item_type) => Some(item_type),
        Err(_) => None,
    };
    let created_at = Timestamp::parse_from_rfc3339(created.as_str());
    let updated_at = Timestamp::parse_from_rfc3339(updated.as_str());
    let (id, item_type, created_at, updated_at) = match (id, item_type, created_at, updated_at) {
        (Some(a), Some(b), Some(c), Some(d)) => (a, b, c, d),
        _ => {
            return None;
        },
    };
    let nonce = match crate::storage::nonce_from_blob(nonce_bytes.as_slice()) {
        Ok(nonce) => nonce,
        Err(_) => {
            return None;
        },
    };
    Some(
        VaultItem {
            id,
            item_type,
            title,
            username,
            url,
            encrypted_data,
            nonce,
            sync_version,
            created_at,
            updated_at,
        },
    )
}

impl BackupPayload {
    /// The plaintext of the backup: its JSON in UTF-8.
    pub fn to_json(&self) -> (bytes: Vec<u8>)
        ensures
            bytes@ == encode_utf8(backup_json(self@)),
    {
        let mut texts: Vec<String> = Vec::new();
        let mut i: usize = 0;
        while i < self.items.len()
            invariant
                i <= self.items.len(),
                texts.len() == i,
                forall|k: int| 0 <= k < i ==> (#[trigger] texts[k])@ == item_json(self.items[k]@),
            decreases self.items.len() - i,
        {
            texts.push(item_to_json(&self.items[i]));
            i += 1;
        }
        assert(texts_view(texts@) =~= item_texts(items_view(self.items@)));
        let mut members: Vec<JsonMember> = Vec::new();
        members.push(member("schema_version", render_u64(self.schema_version as u64)));
        members.push(member("exported_at", string_literal(self.exported_at.as_str())));
        members.push(member("items", render_array(&texts)));
        assert(members_view(members@) =~= seq![
            ("schema_version"@, decimal_text(self.schema_version as nat)),
            ("exported_at"@, json_string_literal(self.exported_at@)),
            ("items"@, array_json(item_texts(self@.items))),
        ]);
        render_object(&members).as_str().as_bytes_vec()
    }

    /// The payload that `document` encodes, as [`json_backup`] says.
    ///
    /// Fails with `Serialization` on any other document.
    pub fn from_json(document: &[u8]) -> (r: Result<Self, ChacrabError>)
        ensures
            match r {
                Ok(payload) => json_backup(document@) == Some(payload@),
                Err(e) => json_backup(document@) is None && e@ == ErrorKind::Serialization,
            },
    {
        let members = match parse_object(document) {
            Ok(members) => members,
            Err(e) => {
                return Err(ChacrabError::from(e));
            },
        };
        let schema_version: u32 = match find_member(&members, "schema_version") {
            Some(at) => match parse_u64(members[at].value.as_str()) {
                Some(value) => {
                    if value > u32::MAX as u64 {
                        return Err(ChacrabError::Serialization);
                    }
                    value as u32
                },
                None => {
                    return Err(ChacrabError::Serialization);
                },
            },
            None => {
                return Err(ChacrabError::Serialization);
            },
        };
        let exported_at = match string_member(&members, "exported_at") {
            Some(text) => text,
            None => {
                return Err(ChacrabError::Serialization);
            },
        };
        let elements = match find_member(&members, "items") {
            Some(at) => match parse_array(members[at].value.as_str()) {
                Ok(elements) => elements,
                Err(e) => {
                    return Err(ChacrabError::from(e));
                },
            },
            None => {
                return Err(ChacrabError::Serialization);
            },
        };
        let mut items: Vec<VaultItem> = Vec::new();
        let mut i: usize = 0;
        while i < elements.len()
            invariant
                i <= elements.len(),
                items.len() == i,
                json_object_members(document@) == Some(members_view(members@)),
                member_value(members_view(members@), "items"@) is Some,
                json_array_elements(member_value(members_view(members@), "items"@)->0) == Some(
                    texts_view(elements@),
                ),
                forall|k: int|
                    0 <= k < i ==> json_item(#[trigger] texts_view(elements@)[k]) == Some(items[k]@),
            decreases elements.len() - i,
        {
            match item_from_json(elements[i].as_str()) {
                Some(item) => {
                    items.push(item);
                },
                None => {
                    assert(json_item(texts_view(elements@)[i as int]) is None);
                    return Err(ChacrabError::Serialization);
                },
            }
            i += 1;
        }
        assert(items_view(items@) =~= Seq::new(
            texts_view(elements@).len(),
            |k: int| json_item(texts_view(elements@)[k])->0,
        ));
        Ok(BackupPayload { schema_version, exported_at, items })
    }
}

/// The plaintext of an export of `items` that is dated `now`.
pub open spec fn export_plaintext(items: Seq<VaultItemView>, now: Timestamp) -> Seq<u8> {
    encode_utf8(
        backup_json(
            BackupPayloadView {
                schema_version: BACKUP_FORMAT_VERSION,
                exported_at: rfc3339_text(now.seconds(), now.subsec()),
                items,
            },
        ),
    )
}

/// What an export of `items` under `key` and `nonce`, dated `now`, gives:
/// the envelope around the plaintext, or `Crypto` for a plaintext too long
/// for a backup.
pub open spec fn exported_backup(
    items: Seq<VaultItemView>,
    key: Seq<u8>,
    now: Timestamp,
    nonce: Seq<u8>,
) -> Result<BackupFileView, ErrorKind> {
    if backup_fits(export_plaintext(items, now).len()) {
        Ok(sealed_backup(export_plaintext(items, now), key, nonce))
    } else {
        Err(ErrorKind::Crypto)
    }
}

/// The view of the outcome of an export.
pub open spec fn export_view(outcome: Result<EncryptedBackupFile, ChacrabError>) -> Result<
    BackupFileView,
    ErrorKind,
> {
    match outcome {
        Ok(file) => Ok(file@),
        Err(e) => Err(e@),
    }
}

/// Exports `items` under `key` and `nonce`, dated `now`: the items are
/// encoded as the JSON object that [`backup_json`] describes, with schema
/// version 1, and sealed into an envelope. The plaintext is wiped.
///
/// Fails with `Crypto` exactly on a backup too long to be sealed. Opening
/// the envelope under the same key gives the plaintext back, so that an
/// import under the same key gets past version, base64, checksum and tag
/// and gives what the exported plaintext decodes to.
pub fn export_with(items: Vec<VaultItem>, key: &[u8; 32], now: Timestamp, nonce: [u8; 12]) -> (r:
    Result<EncryptedBackupFile, ChacrabError>)
    ensures
        export_view(r) == exported_backup(items_view(items@), key@, now, nonce@),
        r matches Ok(file) ==> opened_backup(file@, key@) == Ok::<Seq<u8>, ErrorKind>(
            export_plaintext(items_view(items@), now),
        ),
        r matches Ok(file) ==> imported_backup(file@, key@) == decoded_backup(
            export_plaintext(items_view(items@), now),
        ),
{
    let payload = BackupPayload {
        schema_version: BACKUP_FORMAT_VERSION,
        exported_at: now.to_rfc3339(),
        items,
    };
    let mut serialized = payload.to_json();
    let sealed = seal_backup(serialized.as_slice(), key, nonce);
    crate::crypto::zeroize_vec(&mut serialized);
    sealed
}

/// Exports `items` under `key`, with a fresh nonce and the current time:
/// the outcome is that of [`export_with`] for some instant and some nonce.
pub fn export_encrypted(items: Vec<VaultItem>, key: &[u8; 32]) -> (r: Result<
    EncryptedBackupFile,
    ChacrabError,
>)
    ensures
        exists|now: Timestamp, nonce: Seq<u8>|
            nonce.len() == 12 && #[trigger] exported_backup(items_view(items@), key@, now, nonce)
                == export_view(r) && (r matches Ok(file) ==> opened_backup(file@, key@) == Ok::<
                Seq<u8>,
                ErrorKind,
            >(export_plaintext(items_view(items@), now)) && imported_backup(file@, key@)
                == decoded_backup(export_plaintext(items_view(items@), now))),
{
    let now = Timestamp::now();
    let nonce = fresh_nonce();
    let r = export_with(items, key, now, nonce);
    proof {
        assert(exported_backup(items_view(items@), key@, now, nonce@) == export_view(r));
    }
    r
}

/// Imports a backup under `key`, as [`imported_backup`] says.
///
/// Fails with `Config` on another format version, with `Serialization` on
/// malformed base64, a nonce that has not 12 bytes or a plaintext that
/// encodes no payload, and with `Crypto` on a wrong checksum or a tag
/// mismatch. The items keep their identifiers and versions; storing them
/// is left to the caller.
pub fn import_encrypted(backup_file: &EncryptedBackupFile, key: &[u8; 32]) -> (r: Result<
    BackupPayload,
    ChacrabError,
>)
    ensures
        match r {
            Ok(payload) => imported_backup(backup_file@, key@) == Ok::<
                BackupPayloadView,
                ErrorKind,
            >(payload@),
            Err(e) => imported_backup(backup_file@, key@) == Err::<BackupPayloadView, ErrorKind>(
                e@,
            ),
        },
{
    let mut plaintext = match open_backup(backup_file, key) {
        Ok(plaintext) => plaintext,
        Err(e) => {
            return Err(e);
        },
    };
    let payload = BackupPayload::from_json(plaintext.as_slice());
    crate::crypto::zeroize_vec(&mut plaintext);
    payload
}

/// The state after the first `count` of `items` were stored, one after
/// the other, each under its identifier.
pub open spec fn restored(state: RepositoryState, items: Seq<VaultItemView>, count: nat) -> RepositoryState
    decreases count,
{
    if count == 0 || count > items.len() {
        state
    } else {
        restored(state, items, (count - 1) as nat).with_item(items[count - 1])
    }
}

/// Stores the items of an imported backup in `repo`, in their order. An
/// item replaces the one that `repo` holds under the same identifier,
/// whatever its version; tombstones and the authentication record are
/// left alone.
///
/// Fails with `Storage` where the repository fails; the items before the
/// one that failed are stored then.
pub fn restore_items<R: VaultRepository>(repo: &mut R, items: &Vec<VaultItem>) -> (r: Result<
    (),
    ChacrabError,
>)
    ensures
        r is Ok ==> final(repo).state() == restored(
            old(repo).state(),
            items_view(items@),
            items@.len(),
        ),
        r matches Err(e) ==> e@ == ErrorKind::Storage && exists|done: nat|
            done < items@.len() && final(repo).state() == #[trigger] restored(
                old(repo).state(),
                items_view(items@),
                done,
            ),
{
    let ghost before = repo.state();
    let mut i: usize = 0;
    while i < items.len()
        invariant
            i <= items.len(),
            before == old(repo).state(),
            repo.state() == restored(before, items_view(items@), i as nat),
        decreases items.len() - i,
    {
        match repo.upsert_item(&items[i]) {
            Ok(()) => {},
            Err(e) => {
                assert(repo.state() == restored(before, items_view(items@), i as nat));
                return Err(e);
            },
        }
        i += 1;
    }
    Ok(())
}

/// Restoring items of which no two share an identifier leaves the
/// repository holding each of them as it is in the backup, and every
/// other item, every tombstone and the authentication record as before.
pub proof fn lemma_restored_holds_the_backup(
    state: RepositoryState,
    items: Seq<VaultItemView>,
    count: nat,
)
    requires
        count <= items.len(),
        forall|i: int, j: int| 0 <= i < j < items.len() ==> items[i].id != items[j].id,
    ensures
        forall|i: int|
            0 <= i < count ==> restored(state, items, count).items.contains_key(
                (#[trigger] items[i]).id,
            ) && restored(state, items, count).items[items[i].id] == items[i],
        forall|id: u128|
            (forall|i: int| 0 <= i < count ==> (#[trigger] items[i]).id != id) ==> (
            #[trigger] restored(state, items, count).items.contains_key(id)
                == state.items.contains_key(id) && (state.items.contains_key(id) ==> restored(
                state,
                items,
                count,
            ).items[id] == state.items[id])),
        restored(state, items, count).tombstones == state.tombstones,
        restored(state, items, count).auth == state.auth,
    decreases count,
{
    if count > 0 {
        let earlier = restored(state, items, (count - 1) as nat);
        lemma_restored_holds_the_backup(state, items, (count - 1) as nat);
        let last = items[count - 1];
        assert(restored(state, items, count) == earlier.with_item(last));
        assert forall|i: int| 0 <= i < count implies restored(state, items, count).items.contains_key(
            (#[trigger] items[i]).id,
        ) && restored(state, items, count).items[items[i].id] == items[i] by {
            if i < count - 1 {
                assert(items[i].id != last.id);
            }
        }
        assert forall|id: u128|
            (forall|i: int| 0 <= i < count ==> (#[trigger] items[i]).id != id) implies (
            #[trigger] restored(state, items, count).items.contains_key(id)
                == state.items.contains_key(id) && (state.items.contains_key(id) ==> restored(
                state,
                items,
                count,
            ).items[id] == state.items[id])) by {
            assert(items[count - 1].id != id);
            assert forall|i: int| 0 <= i < count - 1 implies (#[trigger] items[i]).id != id by {}
            assert(earlier.items.contains_key(id) == state.items.contains_key(id));
        }
    }
}

} // verus!
