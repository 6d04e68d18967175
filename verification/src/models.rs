//! The entities of the vault: items, tombstones, payloads and the
//! authentication record, each with its mathematical view.

use vstd::prelude::*;

verus! {

/// The first version an item or a tombstone can carry.
pub const INITIAL_SYNC_VERSION: u64 = 1;

/// The length of a nonce in bytes.
pub const NONCE_LEN: usize = 12;

/// Seconds since the Unix epoch of 0000-01-01T00:00:00Z.
pub const MIN_TIMESTAMP_SECS: i64 = -62_167_219_200;

/// Seconds since the Unix epoch of 9999-12-31T23:59:59Z.
pub const MAX_TIMESTAMP_SECS: i64 = 253_402_300_799;

/// The version a record receives when its stored form names none.
pub fn default_sync_version() -> (v: u64)
    ensures
        v == 1,
{
    INITIAL_SYNC_VERSION
}

/// What an item holds: a credential or a secure note.
#[derive(Clone, Copy, Debug, PartialEq, Eq, Structural)]
pub enum VaultItemType {
    Password,
    Note,
}

/// Whether whole seconds and a sub-second part name an instant of the years
/// 0000 to 9999. A sub-second part of a billion or more stands for a leap
/// second and is allowed only in the last second of a minute.
pub open spec fn valid_instant(secs: int, nanos: int) -> bool {
    &&& MIN_TIMESTAMP_SECS <= secs <= MAX_TIMESTAMP_SECS
    &&& 0 <= nanos < 2_000_000_000
    &&& nanos >= 1_000_000_000 ==> secs % 60 == 59
}

/// An instant in UTC, with nanosecond resolution, within the years 0000 to
/// 9999. Instants are ordered by their seconds, then by their sub-second part.
#[derive(Clone, Copy, Debug, PartialEq, Eq, Structural)]
pub struct Timestamp {
    secs: i64,
    nanos: u32,
}

impl Timestamp {
    #[verifier::type_invariant]
    spec fn in_range(self) -> bool {
        valid_instant(self.secs as int, self.nanos as int)
    }

    /// Whole seconds since the Unix epoch.
    pub closed spec fn seconds(self) -> int {
        self.secs as int
    }

    /// The part of the instant below one second, in nanoseconds.
    pub closed spec fn subsec(self) -> int {
        self.nanos as int
    }

    /// The instant `secs` seconds and `nanos` nanoseconds after the Unix
    /// epoch.
    pub closed spec fn at(secs: int, nanos: int) -> Timestamp {
        Timestamp { secs: secs as i64, nanos: nanos as u32 }
    }

    /// An instant is made of its seconds and its sub-second part.
    pub proof fn lemma_at(secs: int, nanos: int)
        requires
            valid_instant(secs, nanos),
        ensures
            Timestamp::at(secs, nanos).seconds() == secs,
            Timestamp::at(secs, nanos).subsec() == nanos,
    {
    }

    /// Whether `self` is strictly later than `other`.
    pub open spec fn is_after(self, other: Timestamp) -> bool {
        self.seconds() > other.seconds() || (self.seconds() == other.seconds() && self.subsec()
            > other.subsec())
    }

    /// Two instants with the same seconds and sub-second part are the same.
    pub proof fn lemma_same_instant(self, other: Timestamp)
        requires
            self.seconds() == other.seconds(),
            self.subsec() == other.subsec(),
        ensures
            self == other,
    {
    }

    /// Of two distinct instants exactly one is later than the other.
    pub proof fn lemma_order_is_total(self, other: Timestamp)
        ensures
            self == other <==> !self.is_after(other) && !other.is_after(self),
            !(self.is_after(other) && other.is_after(self)),
    {
    }

    /// The instant `secs` seconds and `nanos` nanoseconds after the Unix
    /// epoch, if it lies within the years 0000 to 9999.
    pub fn new(secs: i64, nanos: u32) -> (r: Option<Timestamp>)
        ensures
            r is Some <==> valid_instant(secs as int, nanos as int),
            r matches Some(t) ==> t.seconds() == secs && t.subsec() == nanos && t == Timestamp::at(
                secs as int,
                nanos as int,
            ),
    {
        if secs < MIN_TIMESTAMP_SECS || secs > MAX_TIMESTAMP_SECS {
            return None;
        }
        if nanos >= 2_000_000_000 {
            return None;
        }
        let since_start: u64 = (secs - MIN_TIMESTAMP_SECS) as u64;
        assert(since_start as int % 60 == secs as int % 60) by {
            assert(MIN_TIMESTAMP_SECS as int == 60 * (-1_036_120_320int));
        }
        if nanos >= 1_000_000_000 && since_start % 60 != 59 {
            return None;
        }
        Some(Timestamp { secs, nanos })
    }

    /// The instant `secs` whole seconds after the Unix epoch, brought into
    /// the years 0000 to 9999 where it lies outside them.
    pub fn from_secs_saturating(secs: i64) -> (t: Timestamp)
        ensures
            t.subsec() == 0,
            MIN_TIMESTAMP_SECS <= secs <= MAX_TIMESTAMP_SECS ==> t.seconds() == secs,
            secs < MIN_TIMESTAMP_SECS ==> t.seconds() == MIN_TIMESTAMP_SECS,
            secs > MAX_TIMESTAMP_SECS ==> t.seconds() == MAX_TIMESTAMP_SECS,
    {
        if secs < MIN_TIMESTAMP_SECS {
            Timestamp { secs: MIN_TIMESTAMP_SECS, nanos: 0 }
        } else if secs > MAX_TIMESTAMP_SECS {
            Timestamp { secs: MAX_TIMESTAMP_SECS, nanos: 0 }
        } else {
            Timestamp { secs, nanos: 0 }
        }
    }

    /// Whole seconds since the Unix epoch.
    pub fn secs(&self) -> (s: i64)
        ensures
            s == self.seconds(),
            MIN_TIMESTAMP_SECS <= s <= MAX_TIMESTAMP_SECS,
    {
        proof {
            use_type_invariant(self);
        }
        self.secs
    }

    /// The part of the instant below one second, in nanoseconds.
    pub fn subsec_nanos(&self) -> (n: u32)
        ensures
            n == self.subsec(),
            valid_instant(self.seconds(), n as int),
    {
        proof {
            use_type_invariant(self);
        }
        self.nanos
    }

    /// Whether `self` is strictly later than `other`.
    pub fn later_than(&self, other: &Timestamp) -> (later: bool)
        ensures
            later == self.is_after(*other),
    {
        self.secs > other.secs || (self.secs == other.secs && self.nanos > other.nanos)
    }
}

/// The RFC 3339 rendering of the instant, in UTC with the offset written as
/// `+00:00` and as many sub-second digits as the instant needs.
pub uninterp spec fn rfc3339_text(secs: int, nanos: int) -> Seq<char>;

/// The instant that an RFC 3339 text names, as seconds since the Unix epoch
/// and nanoseconds; `None` where the text is no RFC 3339 date and time.
pub uninterp spec fn rfc3339_instant(text: Seq<char>) -> Option<(i64, u32)>;

/// The instant that a text names, if it names one within the years 0000 to
/// 9999.
pub open spec fn stored_instant(text: Seq<char>) -> Option<Timestamp> {
    match rfc3339_instant(text) {
        Some(instant) => if valid_instant(instant.0 as int, instant.1 as int) {
            Some(Timestamp::at(instant.0 as int, instant.1 as int))
        } else {
            None
        },
        None => None,
    }
}

/// Calls `Utc::now` of chrono and takes the reading apart into seconds and
/// nanoseconds. A clock reading is made of whole seconds and less than one
/// second, never of a leap second; nothing else is known of it.
#[verifier::external_body]
fn clock_reading() -> (reading: (i64, u32))
    ensures
        reading.1 < 1_000_000_000,
{
    let now = chrono::Utc::now();
    (now.timestamp(), now.timestamp_subsec_nanos())
}

/// Calls `DateTime::from_timestamp` and `to_rfc3339` of chrono. Every
/// instant of the years 0000 to 9999 is within chrono's range, and parsing
/// the text gives the instant back.
#[verifier::external_body]
fn render_rfc3339(secs: i64, nanos: u32) -> (text: Option<String>)
    requires
        valid_instant(secs as int, nanos as int),
    ensures
        text is Some,
        text matches Some(t) ==> t@ == rfc3339_text(secs as int, nanos as int),
        text matches Some(t) ==> rfc3339_instant(t@) == Some((secs, nanos)),
{
    chrono::DateTime::from_timestamp(secs, nanos).map(|instant| instant.to_rfc3339())
}

/// Calls `DateTime::parse_from_rfc3339` of chrono and takes the instant
/// apart, in UTC, into seconds and nanoseconds.
#[verifier::external_body]
fn parse_rfc3339(text: &str) -> (instant: Option<(i64, u32)>)
    ensures
        instant == rfc3339_instant(text@),
{
    chrono::DateTime::parse_from_rfc3339(text).ok().map(
        |instant| (instant.timestamp(), instant.timestamp_subsec_nanos()),
    )
}

impl Timestamp {
    /// The current instant. A clock reading outside the years 0000 to 9999
    /// is brought to the nearest second within them. The clock gives whole
    /// seconds and less than one second: the instant is never written as a
    /// leap second.
    pub fn now() -> (t: Timestamp)
        ensures
            t.subsec() < 1_000_000_000,
            valid_instant(t.seconds(), t.subsec()),
    {
        let (secs, nanos) = clock_reading();
        match Timestamp::new(secs, nanos) {
            Some(t) => t,
            None => Timestamp::from_secs_saturating(secs),
        }
    }

    /// The instant `millis` milliseconds after the Unix epoch, if it lies
    /// within the years 0000 to 9999.
    pub fn from_millis(millis: i64) -> (r: Option<Timestamp>)
        ensures
            r is Some <==> MIN_TIMESTAMP_SECS * 1000 <= millis <= MAX_TIMESTAMP_SECS * 1000 + 999,
            r matches Some(t) ==> t.seconds() * 1000 + t.subsec() / 1_000_000 == millis && t.subsec()
                % 1_000_000 == 0 && t.subsec() < 1_000_000_000,
    {
        if millis < MIN_TIMESTAMP_SECS * 1000 || millis > MAX_TIMESTAMP_SECS * 1000 + 999 {
            return None;
        }
        let since_start: u64 = (millis - MIN_TIMESTAMP_SECS * 1000) as u64;
        let secs: i64 = (since_start / 1000) as i64 + MIN_TIMESTAMP_SECS;
        let nanos: u32 = ((since_start % 1000) * 1_000_000) as u32;
        Timestamp::new(secs, nanos)
    }

    /// The instant in whole milliseconds since the Unix epoch: what lies
    /// below a millisecond is cut off.
    pub fn millis(&self) -> (millis: i64)
        ensures
            millis == self.seconds() * 1000 + self.subsec() / 1_000_000,
    {
        proof {
            use_type_invariant(self);
        }
        self.secs * 1000 + (self.nanos / 1_000_000) as i64
    }

    /// The RFC 3339 rendering of the instant.
    pub fn to_rfc3339(&self) -> (text: String)
        ensures
            text@ == rfc3339_text(self.seconds(), self.subsec()),
            stored_instant(text@) == Some(*self),
    {
        proof {
            use_type_invariant(self);
        }
        match render_rfc3339(self.secs, self.nanos) {
            Some(text) => text,
            None => String::new(),
        }
    }

    /// The instant that an RFC 3339 text names, if it names one within the
    /// years 0000 to 9999.
    pub fn parse_from_rfc3339(text: &str) -> (r: Option<Timestamp>)
        ensures
            match r {
                Some(t) => stored_instant(text@) == Some(t),
                None => stored_instant(text@) is None,
            },
    {
        match parse_rfc3339(text) {
            Some((secs, nanos)) => Timestamp::new(secs, nanos),
            None => None,
        }
    }
}

/// The mathematical value of a [`VaultItem`].
pub struct VaultItemView {
    pub id: u128,
    pub item_type: VaultItemType,
    pub title: Seq<char>,
    pub username: Option<Seq<char>>,
    pub url: Option<Seq<char>>,
    pub encrypted_data: Seq<u8>,
    pub nonce: Seq<u8>,
    pub sync_version: u64,
    pub created_at: Timestamp,
    pub updated_at: Timestamp,
}

impl VaultItemView {
    /// The ciphertext is present and the nonce has its fixed length.
    pub open spec fn blob_is_valid(self) -> bool {
        self.encrypted_data.len() > 0 && self.nonce.len() == NONCE_LEN
    }

    /// The invariants of an item at rest.
    pub open spec fn well_formed(self) -> bool {
        &&& self.blob_is_valid()
        &&& self.sync_version >= 1
        &&& !self.created_at.is_after(self.updated_at)
    }
}

/// A unit of stored information. The payload is encrypted; the title, the
/// user name, the address and the timestamps are kept in the clear.
#[derive(Debug)]
pub struct VaultItem {
    /// The 128-bit identifier, assigned at creation.
    pub id: u128,
    pub item_type: VaultItemType,
    pub title: String,
    pub username: Option<String>,
    pub url: Option<String>,
    /// The ciphertext with its authentication tag.
    pub encrypted_data: Vec<u8>,
    /// The nonce of the encryption that produced `encrypted_data`.
    pub nonce: [u8; 12],
    /// Starts at 1 and grows with every mutation.
    pub sync_version: u64,
    pub created_at: Timestamp,
    pub updated_at: Timestamp,
}

/// The characters of an optional string.
pub open spec fn text_view(text: Option<String>) -> Option<Seq<char>> {
    match text {
        Some(s) => Some(s@),
        None => None,
    }
}

/// A copy of an optional string.
pub fn clone_text(text: &Option<String>) -> (copy: Option<String>)
    ensures
        text_view(copy) == text_view(*text),
{
    match text {
        Some(s) => Some(s.clone()),
        None => None,
    }
}

/// Whether two optional strings hold the same characters.
pub fn same_text(left: &Option<String>, right: &Option<String>) -> (same: bool)
    ensures
        same == (text_view(*left) == text_view(*right)),
{
    match (left, right) {
        (Some(a), Some(b)) => *a == *b,
        (None, None) => true,
        _ => false,
    }
}

/// Whether two strings hold the same characters.
pub fn same_str(left: &str, right: &str) -> (same: bool)
    ensures
        same == (left@ == right@),
{
    let a = left.to_owned();
    let b = right.to_owned();
    a == b
}

/// Whether two byte strings are equal.
pub fn same_bytes(left: &[u8], right: &[u8]) -> (same: bool)
    ensures
        same == (left@ == right@),
{
    if left.len() != right.len() {
        return false;
    }
    let mut i: usize = 0;
    while i < left.len()
        invariant
            left.len() == right.len(),
            i <= left.len(),
            forall|k: int| 0 <= k < i ==> left@[k] == right@[k],
        decreases left.len() - i,
    {
        if left[i] != right[i] {
            return false;
        }
        i += 1;
    }
    assert(left@ =~= right@);
    true
}

/// A copy of `bytes`.
pub fn bytes_of(bytes: &[u8]) -> (copy: Vec<u8>)
    ensures
        copy@ == bytes@,
{
    let copy = concatenated(bytes, &[]);
    assert(bytes@ + Seq::<u8>::empty() =~= bytes@);
    copy
}

/// The bytes of `first` followed by those of `second`.
pub fn concatenated(first: &[u8], second: &[u8]) -> (joined: Vec<u8>)
    ensures
        joined@ == first@ + second@,
{
    let mut joined: Vec<u8> = Vec::new();
    let mut i: usize = 0;
    while i < first.len()
        invariant
            i <= first.len(),
            joined@ == first@.take(i as int),
        decreases first.len() - i,
    {
        joined.push(first[i]);
        i += 1;
        assert(joined@ =~= first@.take(i as int));
    }
    assert(first@.take(i as int) =~= first@);
    let mut k: usize = 0;
    while k < second.len()
        invariant
            k <= second.len(),
            joined@ == first@ + second@.take(k as int),
        decreases second.len() - k,
    {
        joined.push(second[k]);
        k += 1;
        assert(joined@ =~= first@ + second@.take(k as int));
    }
    assert(second@.take(k as int) =~= second@);
    joined
}

impl View for VaultItem {
    type V = VaultItemView;

    open spec fn view(&self) -> VaultItemView {
        VaultItemView {
            id: self.id,
            item_type: self.item_type,
            title: self.title@,
            username: text_view(self.username),
            url: text_view(self.url),
            encrypted_data: self.encrypted_data@,
            nonce: self.nonce@,
            sync_version: self.sync_version,
            created_at: self.created_at,
            updated_at: self.updated_at,
        }
    }
}

impl Clone for VaultItem {
    fn clone(&self) -> (copy: Self)
        ensures
            copy@ == self@,
    {
        VaultItem {
            id: self.id,
            item_type: self.item_type,
            title: self.title.clone(),
            username: clone_text(&self.username),
            url: clone_text(&self.url),
            encrypted_data: self.encrypted_data.clone(),
            nonce: self.nonce,
            sync_version: self.sync_version,
            created_at: self.created_at,
            updated_at: self.updated_at,
        }
    }
}

impl VaultItem {
    /// Whether two items agree in every field.
    pub fn same_as(&self, other: &VaultItem) -> (same: bool)
        ensures
            same == (self@ == other@),
    {
        let same: bool = self.id == other.id && self.item_type == other.item_type && self.title
            == other.title && same_text(&self.username, &other.username) && same_text(
            &self.url,
            &other.url,
        ) && same_bytes(self.encrypted_data.as_slice(), other.encrypted_data.as_slice())
            && same_bytes(self.nonce.as_slice(), other.nonce.as_slice()) && self.sync_version
            == other.sync_version && self.created_at == other.created_at && self.updated_at
            == other.updated_at;
        same
    }
}

/// A deletion receipt: the item `id` vanished at `deleted_at`, at the version
/// it would have received had it been updated instead.
#[derive(Clone, Copy, Debug, PartialEq, Eq, Structural)]
pub struct SyncTombstone {
    pub id: u128,
    pub deleted_at: Timestamp,
    pub sync_version: u64,
}

/// The mathematical value of an [`AuthRecord`].
pub struct AuthRecordView {
    pub salt: Seq<char>,
    pub verifier: Seq<char>,
    pub argon2_m_cost: u32,
    pub argon2_t_cost: u32,
    pub argon2_p_cost: u32,
}

/// The single row of authentication material: the salt, the verifier of the
/// derived key, and the Argon2 costs that both were made with.
#[derive(Debug)]
pub struct AuthRecord {
    pub salt: String,
    pub verifier: String,
    pub argon2_m_cost: u32,
    pub argon2_t_cost: u32,
    pub argon2_p_cost: u32,
}

impl View for AuthRecord {
    type V = AuthRecordView;

    open spec fn view(&self) -> AuthRecordView {
        AuthRecordView {
            salt: self.salt@,
            verifier: self.verifier@,
            argon2_m_cost: self.argon2_m_cost,
            argon2_t_cost: self.argon2_t_cost,
            argon2_p_cost: self.argon2_p_cost,
        }
    }
}

impl Clone for AuthRecord {
    fn clone(&self) -> (copy: Self)
        ensures
            copy@ == self@,
    {
        AuthRecord {
            salt: self.salt.clone(),
            verifier: self.verifier.clone(),
            argon2_m_cost: self.argon2_m_cost,
            argon2_t_cost: self.argon2_t_cost,
            argon2_p_cost: self.argon2_p_cost,
        }
    }
}

} // verus!
