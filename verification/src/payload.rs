//! The decrypted body of an item: its JSON encoding and its bounded audit
//! trail.

use vstd::prelude::*;
use vstd::string::{StrSliceExecFns, StringExecFns};
use vstd::utf8::encode_utf8;
use crate::errors::{ChacrabError, ErrorKind};
use crate::json::{
    array_json, distinct_keys, find_member, json_array_elements, json_object_members,
    json_optional_string, json_string_literal, member_value, members_view, object_json,
    optional_string_json, optional_string_text, parse_array, parse_object, parse_optional_string,
    render_array, render_object, string_literal, texts_view, JsonMember,
};
use crate::models::{clone_text, rfc3339_text, text_view, Timestamp, VaultItemType};

verus! {

/// The most audit events that a payload keeps.
pub const AUDIT_LIMIT: usize = 20;

/// The mathematical value of an [`EncryptedPayload`].
pub struct PayloadView {
    pub password: Option<Seq<char>>,
    pub notes: Option<Seq<char>>,
    /// The custom fields: each key with its value as JSON text.
    pub custom_fields: Seq<(Seq<char>, Seq<char>)>,
}

impl PayloadView {
    /// The custom fields are a mapping: no key stands twice.
    pub open spec fn well_formed(self) -> bool {
        distinct_keys(self.custom_fields)
    }
}

/// The decrypted body of an item.
#[derive(Debug)]
pub struct EncryptedPayload {
    /// Present only for password items.
    pub password: Option<String>,
    pub notes: Option<String>,
    /// A mapping from keys to JSON values: the members of a JSON object
    /// in their order, each value held as JSON text. A payload that was
    /// made or read by this library holds no key twice, and recording an
    /// audit event keeps it so; of a key that a caller put in twice, the
    /// last member counts, as it does for the reader of a JSON object. The
    /// key `_audit` holds the audit trail.
    pub custom_fields: Vec<JsonMember>,
}

impl View for EncryptedPayload {
    type V = PayloadView;

    open spec fn view(&self) -> PayloadView {
        PayloadView {
            password: text_view(self.password),
            notes: text_view(self.notes),
            custom_fields: members_view(self.custom_fields@),
        }
    }
}

/// What a caller hands over to have an item created.
#[derive(Debug)]
pub struct NewVaultItem {
    pub item_type: VaultItemType,
    pub title: String,
    pub username: Option<String>,
    pub url: Option<String>,
    pub payload: EncryptedPayload,
}

impl Clone for EncryptedPayload {
    fn clone(&self) -> (copy: Self)
        ensures
            copy@ == self@,
    {
        let mut fields: Vec<JsonMember> = Vec::new();
        let mut i: usize = 0;
        while i < self.custom_fields.len()
            invariant
                i <= self.custom_fields.len(),
                fields.len() == i,
                members_view(fields@) == members_view(self.custom_fields@).take(i as int),
            decreases self.custom_fields.len() - i,
        {
            let ghost before = fields@;
            fields.push(self.custom_fields[i].clone());
            i += 1;
            assert forall|k: int| 0 <= k < i implies members_view(fields@)[k] == members_view(
                self.custom_fields@,
            ).take(i as int)[k] by {
                if k < i - 1 {
                    assert(members_view(before)[k] == members_view(self.custom_fields@).take(
                        i - 1,
                    )[k]);
                }
            }
            assert(members_view(fields@) =~= members_view(self.custom_fields@).take(i as int));
        }
        assert(members_view(self.custom_fields@).take(i as int) =~= members_view(
            self.custom_fields@,
        ));
        EncryptedPayload {
            password: clone_text(&self.password),
            notes: clone_text(&self.notes),
            custom_fields: fields,
        }
    }
}

/// The mathematical value of a [`NewVaultItem`].
pub struct NewVaultItemView {
    pub item_type: VaultItemType,
    pub title: Seq<char>,
    pub username: Option<Seq<char>>,
    pub url: Option<Seq<char>>,
    pub payload: PayloadView,
}

impl View for NewVaultItem {
    type V = NewVaultItemView;

    open spec fn view(&self) -> NewVaultItemView {
        NewVaultItemView {
            item_type: self.item_type,
            title: self.title@,
            username: text_view(self.username),
            url: text_view(self.url),
            payload: self.payload@,
        }
    }
}

impl Clone for NewVaultItem {
    fn clone(&self) -> (copy: Self)
        ensures
            copy@ == self@,
    {
        NewVaultItem {
            item_type: self.item_type,
            title: self.title.clone(),
            username: clone_text(&self.username),
            url: clone_text(&self.url),
            payload: self.payload.clone(),
        }
    }
}

/// The JSON object that encodes a payload: `password`, `notes` and
/// `custom_fields`, in this order.
pub open spec fn payload_json(payload: PayloadView) -> Seq<char> {
    object_json(
        seq![
            ("password"@, optional_string_json(payload.password)),
            ("notes"@, optional_string_json(payload.notes)),
            ("custom_fields"@, object_json(payload.custom_fields)),
        ],
    )
}

/// The bytes that are encrypted for a payload: its JSON in UTF-8.
pub open spec fn payload_bytes(payload: PayloadView) -> Seq<u8> {
    encode_utf8(payload_json(payload))
}

/// The optional string under `key`: none where the object has no such
/// member or holds `null` there; `None` where the member is neither a
/// string nor `null`.
pub open spec fn optional_member(members: Seq<(Seq<char>, Seq<char>)>, key: Seq<char>) -> Option<
    Option<Seq<char>>,
> {
    match member_value(members, key) {
        Some(text) => json_optional_string(text),
        None => Some(None),
    }
}

/// The payload that a JSON document encodes: an object whose `password`
/// and `notes` are strings, `null` or absent and whose `custom_fields` is an
/// object. Other members are ignored.
pub open spec fn payload_from_json(document: Seq<u8>) -> Option<PayloadView> {
    match json_object_members(document) {
        None => None,
        Some(members) => match (
            optional_member(members, "password"@),
            optional_member(members, "notes"@),
            member_value(members, "custom_fields"@),
        ) {
            (Some(password), Some(notes), Some(fields_text)) => match json_object_members(
                encode_utf8(fields_text),
            ) {
                Some(custom_fields) => Some(PayloadView { password, notes, custom_fields }),
                None => None,
            },
            _ => None,
        },
    }
}

/// The audit events that the custom fields hold: the elements of the array
/// under `_audit`, and none where there is no such array.
pub open spec fn audit_trail(custom_fields: Seq<(Seq<char>, Seq<char>)>) -> Seq<Seq<char>> {
    match member_value(custom_fields, "_audit"@) {
        Some(text) => match json_array_elements(text) {
            Some(events) => events,
            None => Seq::empty(),
        },
        None => Seq::empty(),
    }
}

/// The JSON object that records one audit event.
pub open spec fn audit_event_json(action: Seq<char>, at: Seq<char>) -> Seq<char> {
    object_json(seq![("action"@, json_string_literal(action)), ("at"@, json_string_literal(at))])
}

/// The last `limit` of `events`: older events are dropped first.
pub open spec fn newest(events: Seq<Seq<char>>, limit: nat) -> Seq<Seq<char>> {
    if events.len() > limit {
        events.skip(events.len() - limit)
    } else {
        events
    }
}

/// The position of the last member with the given key.
pub open spec fn last_index_of(members: Seq<(Seq<char>, Seq<char>)>, key: Seq<char>) -> Option<int>
    decreases members.len(),
{
    if members.len() == 0 {
        None
    } else if members.last().0 == key {
        Some(members.len() - 1)
    } else {
        last_index_of(members.drop_last(), key)
    }
}

/// The members with `value` under `key`: in place of the last member with
/// that key, or as a new last member.
pub open spec fn set_member(
    members: Seq<(Seq<char>, Seq<char>)>,
    key: Seq<char>,
    value: Seq<char>,
) -> Seq<(Seq<char>, Seq<char>)> {
    match last_index_of(members, key) {
        Some(at) => members.update(at, (key, value)),
        None => members.push((key, value)),
    }
}

/// The custom fields after an audit event was recorded: the event joins the
/// trail as its last element and the trail keeps its newest
/// [`AUDIT_LIMIT`] events.
pub open spec fn with_audit_event(
    custom_fields: Seq<(Seq<char>, Seq<char>)>,
    action: Seq<char>,
    at: Seq<char>,
) -> Seq<(Seq<char>, Seq<char>)> {
    set_member(
        custom_fields,
        "_audit"@,
        array_json(
            newest(audit_trail(custom_fields).push(audit_event_json(action, at)), AUDIT_LIMIT as nat),
        ),
    )
}

proof fn lemma_last_index(members: Seq<(Seq<char>, Seq<char>)>, key: Seq<char>)
    ensures
        match last_index_of(members, key) {
            Some(at) => 0 <= at < members.len() && members[at].0 == key && member_value(members, key)
                == Some(members[at].1) && forall|k: int|
                at < k < members.len() ==> (#[trigger] members[k]).0 != key,
            None => member_value(members, key) is None && forall|k: int|
                0 <= k < members.len() ==> (#[trigger] members[k]).0 != key,
        },
    decreases members.len(),
{
    if members.len() > 0 && members.last().0 != key {
        lemma_last_index(members.drop_last(), key);
        let rest = members.drop_last();
        match last_index_of(rest, key) {
            Some(at) => {
                assert forall|k: int| at < k < members.len() implies (#[trigger] members[k]).0
                    != key by {
                    if k < rest.len() {
                        assert(rest[k] == members[k]);
                    }
                }
            },
            None => {
                assert forall|k: int| 0 <= k < members.len() implies (#[trigger] members[k]).0
                    != key by {
                    if k < rest.len() {
                        assert(rest[k] == members[k]);
                    }
                }
            },
        }
    }
}

/// Setting a member keeps a mapping a mapping, and afterwards the key has
/// the value that was set and every other key the value it had.
pub proof fn lemma_set_member(members: Seq<(Seq<char>, Seq<char>)>, key: Seq<char>, value: Seq<char>)
    ensures
        distinct_keys(members) ==> distinct_keys(set_member(members, key, value)),
        member_value(set_member(members, key, value), key) == Some(value),
        forall|other: Seq<char>|
            other != key ==> #[trigger] member_value(set_member(members, key, value), other)
                == member_value(members, other),
{
    lemma_last_index(members, key);
    let after = set_member(members, key, value);
    match last_index_of(members, key) {
        Some(at) => {
            assert forall|i: int, j: int| 0 <= i < j < after.len() && distinct_keys(
                members,
            ) implies (#[trigger] after[i]).0 != (#[trigger] after[j]).0 by {
                assert(after[i].0 == members[i].0);
                assert(after[j].0 == members[j].0);
            }
            lemma_member_value_after_update(members, at, key, value, key);
            assert forall|other: Seq<char>| other != key implies #[trigger] member_value(
                after,
                other,
            ) == member_value(members, other) by {
                lemma_member_value_after_update(members, at, key, value, other);
            }
        },
        None => {
            assert(after.drop_last() =~= members);
            assert forall|i: int, j: int| 0 <= i < j < after.len() && distinct_keys(
                members,
            ) implies (#[trigger] after[i]).0 != (#[trigger] after[j]).0 by {
                if j < members.len() {
                    assert(after[i] == members[i]);
                    assert(after[j] == members[j]);
                } else {
                    assert(after[i] == members[i]);
                    assert(members[i].0 != key);
                }
            }
        },
    }
}

proof fn lemma_member_value_after_update(
    members: Seq<(Seq<char>, Seq<char>)>,
    at: int,
    key: Seq<char>,
    value: Seq<char>,
    asked: Seq<char>,
)
    requires
        0 <= at < members.len(),
        members[at].0 == key,
        forall|k: int| at < k < members.len() ==> (#[trigger] members[k]).0 != key,
    ensures
        member_value(members.update(at, (key, value)), asked) == if asked == key {
            Some(value)
        } else {
            member_value(members, asked)
        },
    decreases members.len(),
{
    let after = members.update(at, (key, value));
    if at == members.len() - 1 {
        assert(after.drop_last() =~= members.drop_last());
    } else {
        assert(members.last().0 != key);
        assert(after.last() == members.last());
        assert(after.drop_last() =~= members.drop_last().update(at, (key, value)));
        assert forall|k: int| at < k < members.drop_last().len() implies (
        #[trigger] members.drop_last()[k]).0 != key by {
            assert(members.drop_last()[k] == members[k]);
        }
        lemma_member_value_after_update(members.drop_last(), at, key, value, asked);
    }
}

/// Recording an audit event keeps the custom fields a mapping, puts the
/// newest events of the grown trail under `_audit` and leaves every other
/// key as it was.
pub proof fn lemma_audit_event_is_recorded(
    custom_fields: Seq<(Seq<char>, Seq<char>)>,
    action: Seq<char>,
    at: Seq<char>,
)
    ensures
        distinct_keys(custom_fields) ==> distinct_keys(with_audit_event(custom_fields, action, at)),
        member_value(with_audit_event(custom_fields, action, at), "_audit"@) == Some(
            array_json(
                newest(
                    audit_trail(custom_fields).push(audit_event_json(action, at)),
                    AUDIT_LIMIT as nat,
                ),
            ),
        ),
        forall|other: Seq<char>|
            other != "_audit"@ ==> #[trigger] member_value(
                with_audit_event(custom_fields, action, at),
                other,
            ) == member_value(custom_fields, other),
{
    lemma_set_member(
        custom_fields,
        "_audit"@,
        array_json(
            newest(audit_trail(custom_fields).push(audit_event_json(action, at)), AUDIT_LIMIT as nat),
        ),
    );
}

/// The trail that [`newest`] keeps is never longer than the limit, and it
/// ends with the event that was recorded last.
pub proof fn lemma_newest_is_bounded(events: Seq<Seq<char>>, limit: nat)
    ensures
        newest(events, limit).len() <= limit,
        newest(events, limit).len() <= events.len(),
        limit > 0 && events.len() > 0 ==> newest(events, limit).last() == events.last(),
        forall|k: int|
            0 <= k < newest(events, limit).len() ==> newest(events, limit)[k] == events[events.len()
                - newest(events, limit).len() + k],
{
}

fn keep_newest(events: Vec<String>, limit: usize) -> (kept: Vec<String>)
    ensures
        texts_view(kept@) == newest(texts_view(events@), limit as nat),
{
    let mut events = events;
    if events.len() > limit {
        let overflow: usize = events.len() - limit;
        let ghost all = events@;
        let kept = events.split_off(overflow);
        assert(texts_view(kept@) =~= newest(texts_view(all), limit as nat));
        kept
    } else {
        events
    }
}

impl EncryptedPayload {
    /// The payload of a password item without custom fields.
    pub fn for_password(password: String, notes: Option<String>) -> (payload: Self)
        ensures
            payload@ == (PayloadView {
                password: Some(password@),
                notes: text_view(notes),
                custom_fields: Seq::empty(),
            }),
            payload@.well_formed(),
    {
        let payload = EncryptedPayload {
            password: Some(password),
            notes,
            custom_fields: Vec::new(),
        };
        assert(payload@.custom_fields =~= Seq::empty());
        payload
    }

    /// The payload of a note without custom fields.
    pub fn for_note(notes: String) -> (payload: Self)
        ensures
            payload@ == (PayloadView {
                password: None,
                notes: Some(notes@),
                custom_fields: Seq::empty(),
            }),
            payload@.well_formed(),
    {
        let payload = EncryptedPayload { password: None, notes: Some(notes), custom_fields: Vec::new() };
        assert(payload@.custom_fields =~= Seq::empty());
        payload
    }

    /// The bytes that are encrypted for this payload.
    pub fn to_json(&self) -> (bytes: Vec<u8>)
        ensures
            bytes@ == payload_bytes(self@),
    {
        let mut members: Vec<JsonMember> = Vec::new();
        members.push(
            JsonMember { key: "password".to_owned(), value: optional_string_text(&self.password) },
        );
        members.push(
            JsonMember { key: "notes".to_owned(), value: optional_string_text(&self.notes) },
        );
        members.push(
            JsonMember {
                key: "custom_fields".to_owned(),
                value: render_object(&self.custom_fields),
            },
        );
        assert(members_view(members@) =~= seq![
            ("password"@, optional_string_json(self@.password)),
            ("notes"@, optional_string_json(self@.notes)),
            ("custom_fields"@, object_json(self@.custom_fields)),
        ]);
        let text = render_object(&members);
        text.as_str().as_bytes_vec()
    }

    /// The payload that `document` encodes, as [`payload_from_json`] says.
    ///
    /// Fails with `Serialization` on any other document.
    pub fn from_json(document: &[u8]) -> (r: Result<Self, ChacrabError>)
        ensures
            match r {
                Ok(payload) => payload_from_json(document@) == Some(payload@)
                    && payload@.well_formed(),
                Err(e) => e@ == ErrorKind::Serialization && payload_from_json(document@) is None,
            },
    {
        let members = match parse_object(document) {
            Ok(members) => members,
            Err(e) => {
                return Err(ChacrabError::from(e));
            },
        };
        let password = match find_member(&members, "password") {
            Some(at) => match parse_optional_string(members[at].value.as_str()) {
                Ok(value) => value,
                Err(e) => {
                    return Err(ChacrabError::from(e));
                },
            },
            None => None,
        };
        let notes = match find_member(&members, "notes") {
            Some(at) => match parse_optional_string(members[at].value.as_str()) {
                Ok(value) => value,
                Err(e) => {
                    return Err(ChacrabError::from(e));
                },
            },
            None => None,
        };
        let custom_fields = match find_member(&members, "custom_fields") {
            Some(at) => match parse_object(members[at].value.as_str().as_bytes()) {
                Ok(fields) => fields,
                Err(e) => {
                    return Err(ChacrabError::from(e));
                },
            },
            None => {
                return Err(ChacrabError::Serialization);
            },
        };
        Ok(EncryptedPayload { password, notes, custom_fields })
    }

    /// Records that `action` was taken at `now`: the event joins the audit
    /// trail under `_audit` as its last element, and events beyond the
    /// newest [`AUDIT_LIMIT`] are dropped from the front. A value under
    /// `_audit` that is no array gives way to a new trail.
    pub fn append_audit_event(&mut self, action: &str, now: Timestamp)
        ensures
            final(self)@.password == old(self)@.password,
            final(self)@.notes == old(self)@.notes,
            final(self)@.custom_fields == with_audit_event(
                old(self)@.custom_fields,
                action@,
                rfc3339_text(now.seconds(), now.subsec()),
            ),
            old(self)@.well_formed() ==> final(self)@.well_formed(),
    {
        proof {
            lemma_audit_event_is_recorded(
                old(self)@.custom_fields,
                action@,
                rfc3339_text(now.seconds(), now.subsec()),
            );
        }
        let at = now.to_rfc3339();
        let mut event_members: Vec<JsonMember> = Vec::new();
        event_members.push(JsonMember { key: "action".to_owned(), value: string_literal(action) });
        event_members.push(JsonMember { key: "at".to_owned(), value: string_literal(at.as_str()) });
        assert(members_view(event_members@) =~= seq![
            ("action"@, json_string_literal(action@)),
            ("at"@, json_string_literal(at@)),
        ]);
        let event = render_object(&event_members);
        let found = find_member(&self.custom_fields, "_audit");
        proof {
            lemma_last_index(members_view(self.custom_fields@), "_audit"@);
        }
        let mut events: Vec<String> = match found {
            Some(at) => match parse_array(self.custom_fields[at].value.as_str()) {
                Ok(events) => events,
                Err(_) => Vec::new(),
            },
            None => Vec::new(),
        };
        assert(texts_view(events@) =~= audit_trail(old(self)@.custom_fields));
        events.push(event);
        assert(texts_view(events@) =~= audit_trail(old(self)@.custom_fields).push(
            audit_event_json(action@, at@),
        ));
        let kept = keep_newest(events, AUDIT_LIMIT);
        let value = render_array(&kept);
        let ghost fields_before = members_view(old(self).custom_fields@);
        match found {
            Some(at) => {
                assert(last_index_of(fields_before, "_audit"@) == Some(at as int)) by {
                    let spec_at = last_index_of(fields_before, "_audit"@);
                    assert(fields_before[at as int].0 == "_audit"@);
                    if spec_at is Some {
                        let a = spec_at->0;
                        if a < at {
                            assert(old(self).custom_fields@[at as int].key@ == "_audit"@);
                        }
                        if at < a {
                            assert(fields_before[a] == old(self).custom_fields@[a]@);
                        }
                    }
                }
                let key = self.custom_fields[at].key.clone();
                self.custom_fields.set(at, JsonMember { key, value });
                assert(members_view(self.custom_fields@) =~= fields_before.update(
                    at as int,
                    ("_audit"@, value@),
                ));
            },
            None => {
                assert(last_index_of(fields_before, "_audit"@) is None) by {
                    let spec_at = last_index_of(fields_before, "_audit"@);
                    if spec_at is Some {
                        let a = spec_at->0;
                        assert(fields_before[a] == old(self).custom_fields@[a]@);
                    }
                }
                self.custom_fields.push(JsonMember { key: "_audit".to_owned(), value });
                assert(members_view(self.custom_fields@) =~= fields_before.push(
                    ("_audit"@, value@),
                ));
            },
        }
    }
}

} // verus!
