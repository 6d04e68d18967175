//! Registration, login and logout, and the custody of the session key and
//! of the last-activity mark.

use vstd::prelude::*;
use vstd::utf8::encode_utf8;
use crate::crypto::{
    create_registration_material, salt_is_acceptable, verified_key,
    verify_password_with_params, wipe_key, ARGON2_M_COST, ARGON2_P_COST, ARGON2_T_COST,
};
use crate::errors::{ChacrabError, ErrorKind};
use crate::models::{clone_text, text_view, AuthRecord, AuthRecordView};
use crate::password_policy::{policy_verdict, validate_master_password};
use crate::repository::VaultRepository;
use crate::numbers::integer_text;
use crate::session::{
    enforce_timeout, timeout_decision, timeout_error, touch_session, SessionState,
    TimeoutDecision,
};

verus! {

/// An error with which the custody itself can fail: the store waits to be
/// unlocked, or the platform or the transport failed.
pub open spec fn is_custody_failure(kind: ErrorKind) -> bool {
    kind == ErrorKind::KeyringLocked || kind == ErrorKind::KeyringUnavailable
}

/// The custody of the session key: store, load and clear.
///
/// A call that fails leaves the store as it was. A store fails with
/// `KeyringLocked` or `KeyringUnavailable`; `load` answers a store without
/// a key with `NoActiveSession`, unless the store itself failed.
pub trait SessionKeyStore {
    /// The key in custody, if there is one. A store that states no model
    /// of its own is taken to hold an arbitrary one.
    closed spec fn stored(&self) -> Option<Seq<u8>> {
        arbitrary()
    }

    /// Takes `key` into custody, in place of any key held before.
    fn store(&mut self, key: &[u8; 32]) -> (r: Result<(), ChacrabError>)
        ensures
            r is Ok ==> final(self).stored() == Some(key@),
            r is Err ==> final(self).stored() == old(self).stored(),
            r matches Err(e) ==> is_custody_failure(e@),
    ;

    /// The key in custody.
    fn load(&self) -> (r: Result<[u8; 32], ChacrabError>)
        ensures
            r matches Ok(key) ==> self.stored() == Some(key@),
            self.stored() is None ==> r is Err,
            r matches Err(e) ==> is_custody_failure(e@) || (e@ == ErrorKind::NoActiveSession
                && self.stored() is None),
    ;

    /// Ends the custody. Clearing an empty store is no error.
    fn clear(&mut self) -> (r: Result<(), ChacrabError>)
        ensures
            r is Ok ==> final(self).stored() is None,
            r is Err ==> final(self).stored() == old(self).stored(),
            r matches Err(e) ==> is_custody_failure(e@),
    ;
}

/// A session-key store in memory.
pub struct MemorySessionStore {
    key: Option<[u8; 32]>,
}

impl MemorySessionStore {
    /// A store without a key.
    pub fn new() -> (store: Self)
        ensures
            store.stored() is None,
    {
        MemorySessionStore { key: None }
    }
}

impl SessionKeyStore for MemorySessionStore {
    closed spec fn stored(&self) -> Option<Seq<u8>> {
        match self.key {
            Some(key) => Some(key@),
            None => None,
        }
    }

    fn store(&mut self, key: &[u8; 32]) -> (r: Result<(), ChacrabError>)
        ensures
            r is Ok,
    {
        self.key = Some(*key);
        Ok(())
    }

    fn load(&self) -> (r: Result<[u8; 32], ChacrabError>)
        ensures
            self.stored() is Some ==> r is Ok,
            r matches Err(e) ==> e@ == ErrorKind::NoActiveSession,
    {
        match self.key {
            Some(key) => Ok(key),
            None => Err(ChacrabError::NoActiveSession),
        }
    }

    fn clear(&mut self) -> (r: Result<(), ChacrabError>)
        ensures
            r is Ok,
    {
        match self.key {
            Some(mut key) => {
                wipe_key(&mut key);
            },
            None => {},
        }
        self.key = None;
        Ok(())
    }
}

/// The custody of the last-activity mark, the text that says when the
/// session was last used. It is kept beside the session key and apart
/// from it.
///
/// A call that fails leaves the store as it was, and fails with
/// `KeyringLocked` or `KeyringUnavailable`.
pub trait ActivityMarkStore {
    /// The mark in custody, if there is one that can be read. A store that
    /// states no model of its own is taken to hold an arbitrary one.
    closed spec fn mark(&self) -> Option<Seq<char>> {
        arbitrary()
    }

    /// Writes `mark` in place of any mark held before.
    fn store_mark(&mut self, mark: &str) -> (r: Result<(), ChacrabError>)
        ensures
            r is Ok ==> final(self).mark() == Some(mark@),
            r is Err ==> final(self).mark() == old(self).mark(),
            r matches Err(e) ==> is_custody_failure(e@),
    ;

    /// The mark in custody. A mark that cannot be read counts as none.
    fn load_mark(&self) -> (found: Option<String>)
        ensures
            text_view(found) == self.mark(),
    ;

    /// Removes the mark. Clearing an empty store is no error.
    fn clear_mark(&mut self) -> (r: Result<(), ChacrabError>)
        ensures
            r is Ok ==> final(self).mark() is None,
            r is Err ==> final(self).mark() == old(self).mark(),
            r matches Err(e) ==> is_custody_failure(e@),
    ;
}

/// A last-activity mark in memory.
pub struct MemoryMarkStore {
    text: Option<String>,
}

impl MemoryMarkStore {
    /// A store without a mark.
    pub fn new() -> (store: Self)
        ensures
            store.mark() is None,
    {
        MemoryMarkStore { text: None }
    }
}

impl ActivityMarkStore for MemoryMarkStore {
    closed spec fn mark(&self) -> Option<Seq<char>> {
        text_view(self.text)
    }

    fn store_mark(&mut self, mark: &str) -> (r: Result<(), ChacrabError>)
        ensures
            r is Ok,
    {
        self.text = Some(mark.to_owned());
        Ok(())
    }

    fn load_mark(&self) -> (found: Option<String>) {
        clone_text(&self.text)
    }

    fn clear_mark(&mut self) -> (r: Result<(), ChacrabError>)
        ensures
            r is Ok,
    {
        self.text = None;
        Ok(())
    }
}

/// The reason with which a login to a vault without authentication record
/// is turned away.
pub open spec fn not_initialized_reason() -> Seq<char> {
    "vault not initialized"@
}

/// The record that a registration stored is made of a generated salt, the
/// default costs and a verifier that confirms `password` with the key that
/// the password derives.
pub open spec fn registered(record: AuthRecordView, password: Seq<char>) -> bool {
    &&& salt_is_acceptable(record.salt)
    &&& record.argon2_m_cost == ARGON2_M_COST
    &&& record.argon2_t_cost == ARGON2_T_COST
    &&& record.argon2_p_cost == ARGON2_P_COST
    &&& verified_key(
        password,
        record.salt,
        record.verifier,
        record.argon2_m_cost,
        record.argon2_t_cost,
        record.argon2_p_cost,
    ) is Some
}

/// What a login with `password` yields against the authentication record:
/// the session key, or the kind of the error.
pub open spec fn login_outcome(auth: Option<AuthRecordView>, password: Seq<char>) -> Result<
    Seq<u8>,
    ErrorKind,
> {
    match auth {
        None => Err(ErrorKind::Config(not_initialized_reason())),
        Some(record) => match verified_key(
            password,
            record.salt,
            record.verifier,
            record.argon2_m_cost,
            record.argon2_t_cost,
            record.argon2_p_cost,
        ) {
            Some(key) => Ok(key),
            None => Err(ErrorKind::InvalidCredentials),
        },
    }
}

/// What making the authentication record for a password ends in, where it
/// fails: the reason of the policy, or `InvalidCredentials` for a password
/// of more than 4 GiB, which no key can be derived from.
pub open spec fn record_failure(password: Seq<char>) -> Option<ErrorKind> {
    match policy_verdict(password) {
        Some(reason) => Some(ErrorKind::Config(reason)),
        None => if encode_utf8(password).len() > 0xFFFF_FFFF {
            Some(ErrorKind::InvalidCredentials)
        } else {
            None
        },
    }
}

/// Makes the authentication record for a master password: checks the
/// password against the policy, generates a salt, derives the key, computes
/// the verifier and wipes the key. The record carries the default costs.
///
/// Fails exactly where [`record_failure`] names an error, and with that
/// error.
pub fn new_auth_record(master_password: &str) -> (r: Result<AuthRecord, ChacrabError>)
    ensures
        match r {
            Ok(record) => record_failure(master_password@) is None && registered(
                record@,
                master_password@,
            ),
            Err(e) => record_failure(master_password@) == Some(e@),
        },
{
    match validate_master_password(master_password) {
        Ok(()) => {},
        Err(e) => {
            return Err(e);
        },
    }
    let (material, mut derived) = match create_registration_material(master_password) {
        Ok(made) => made,
        Err(e) => {
            return Err(e);
        },
    };
    wipe_key(&mut derived);
    Ok(
        AuthRecord {
            salt: material.salt_b64,
            verifier: material.verifier,
            argon2_m_cost: ARGON2_M_COST,
            argon2_t_cost: ARGON2_T_COST,
            argon2_p_cost: ARGON2_P_COST,
        },
    )
}

/// Registers a master password: makes the authentication record as
/// [`new_auth_record`] says and stores it, in place of a record stored
/// before.
///
/// Fails with the error of [`record_failure`] where no record can be made,
/// and with `Storage` where the repository cannot store the record; a
/// password that the policy accepts registers whenever the repository
/// stores the record. A failure leaves the repository as it was.
pub fn register<R: VaultRepository>(repo: &mut R, master_password: &str) -> (r: Result<
    (),
    ChacrabError,
>)
    ensures
        record_failure(master_password@) matches Some(kind) ==> (r matches Err(e) && e@ == kind),
        r is Ok ==> record_failure(master_password@) is None && final(repo).state().auth is Some
            && registered(final(repo).state().auth->0, master_password@) && final(repo).state()
            == old(repo).state().with_auth(final(repo).state().auth->0),
        r matches Err(e) ==> record_failure(master_password@) == Some(e@) || (record_failure(
            master_password@,
        ) is None && e@ == ErrorKind::Storage),
        r is Err ==> final(repo).state() == old(repo).state(),
{
    let auth = match new_auth_record(master_password) {
        Ok(auth) => auth,
        Err(e) => {
            return Err(e);
        },
    };
    repo.set_auth_record(&auth)
}

/// Confirms the master password against the authentication record, with
/// the costs stored in the record, and returns the session key.
///
/// Fails with `Config` where the vault has no record and with
/// `InvalidCredentials` where the key cannot be derived or the verifier
/// does not confirm it.
pub fn session_key_for(auth: &Option<AuthRecord>, master_password: &str) -> (r: Result<
    [u8; 32],
    ChacrabError,
>)
    ensures
        match r {
            Ok(key) => login_outcome(auth_view(*auth), master_password@) == Ok::<
                Seq<u8>,
                ErrorKind,
            >(key@),
            Err(e) => login_outcome(auth_view(*auth), master_password@) == Err::<
                Seq<u8>,
                ErrorKind,
            >(e@),
        },
{
    match auth {
        None => Err(ChacrabError::config("vault not initialized")),
        Some(record) => verify_password_with_params(
            master_password,
            record.salt.as_str(),
            record.verifier.as_str(),
            record.argon2_m_cost,
            record.argon2_t_cost,
            record.argon2_p_cost,
        ),
    }
}

/// The view of an optional authentication record.
pub open spec fn auth_view(auth: Option<AuthRecord>) -> Option<AuthRecordView> {
    match auth {
        Some(record) => Some(record@),
        None => None,
    }
}

/// The error with which a login can fail: `Storage` where the record could
/// not be read, the error of [`login_outcome`] where the vault has no
/// record or the password is not confirmed, and else the failure of the
/// store that was to take the key.
pub open spec fn login_failure(auth: Option<AuthRecordView>, password: Seq<char>, kind: ErrorKind) -> bool {
    ||| kind == ErrorKind::Storage
    ||| login_outcome(auth, password) == Err::<Seq<u8>, ErrorKind>(kind)
    ||| login_outcome(auth, password) is Ok && is_custody_failure(kind)
}

/// Logs in: loads the authentication record, confirms the master password
/// as [`session_key_for`] says, hands the session key to the store and
/// wipes its own copy.
///
/// On success the store holds the key that the password derives under the
/// stored costs. A failure leaves the store as it was.
pub fn login<R: VaultRepository, S: SessionKeyStore>(
    repo: &R,
    master_password: &str,
    key_store: &mut S,
) -> (r: Result<(), ChacrabError>)
    ensures
        r is Ok ==> login_outcome(repo.state().auth, master_password@) is Ok && final(key_store).stored() == Some(login_outcome(repo.state().auth, master_password@)->Ok_0),
        login_outcome(repo.state().auth, master_password@) is Err ==> r is Err,
        r is Err ==> final(key_store).stored() == old(key_store).stored(),
        r matches Err(e) ==> login_failure(repo.state().auth, master_password@, e@),
{
    let auth = match repo.get_auth_record() {
        Ok(auth) => auth,
        Err(e) => {
            return Err(e);
        },
    };
    let mut derived = match session_key_for(&auth, master_password) {
        Ok(key) => key,
        Err(e) => {
            return Err(e);
        },
    };
    let stored = key_store.store(&derived);
    wipe_key(&mut derived);
    stored
}

/// Logs out: ends the custody of the session key, then removes the
/// last-activity mark. Logging out twice is the same as logging out once.
///
/// Only the stores themselves can make a logout fail. Where the key store
/// fails, both are left as they were; where the mark store fails, the key
/// is gone and the mark is left.
pub fn logout<S: SessionKeyStore, M: ActivityMarkStore>(key_store: &mut S, marks: &mut M) -> (r:
    Result<(), ChacrabError>)
    ensures
        r is Ok ==> final(key_store).stored() is None && final(marks).mark() is None,
        r is Err ==> final(marks).mark() == old(marks).mark() && (final(key_store).stored()
            is None || final(key_store).stored() == old(key_store).stored()),
        r matches Err(e) ==> is_custody_failure(e@),
{
    match key_store.clear() {
        Ok(()) => marks.clear_mark(),
        Err(e) => Err(e),
    }
}

/// How a check of the idle timeout that fails with `kind` leaves the two
/// stores, from what they held before.
///
/// Without a key the check fails with `NoActiveSession` and nothing
/// changes. With `SessionExpired` the mark is gone, and the key with it
/// unless the mark was only unreadable as a number. Where a store fails,
/// the mark is as it was, and the key is as it was or, in a session that
/// was to be ended, gone.
pub open spec fn guard_failure(
    key_before: Option<Seq<u8>>,
    mark_before: Option<Seq<char>>,
    key_after: Option<Seq<u8>>,
    mark_after: Option<Seq<char>>,
    now: int,
    timeout_secs: int,
    kind: ErrorKind,
) -> bool {
    let decision = timeout_decision(mark_before, now, timeout_secs);
    ||| {
        &&& kind == ErrorKind::NoActiveSession
        &&& key_before is None
        &&& key_after == key_before
        &&& mark_after == mark_before
    }
    ||| {
        &&& is_custody_failure(kind)
        &&& mark_after == mark_before
        &&& key_after == key_before || (key_after is None && decision
            == TimeoutDecision::EndSession)
    }
    ||| {
        &&& kind == ErrorKind::SessionExpired
        &&& key_before is Some
        &&& mark_before is Some
        &&& mark_after is None
        &&& decision == TimeoutDecision::ClearMark || decision == TimeoutDecision::EndSession
        &&& decision == TimeoutDecision::ClearMark ==> key_after == key_before
        &&& decision == TimeoutDecision::EndSession ==> key_after is None
    }
}

/// Checks the idle timeout before an operation that uses the session key,
/// and acts on what [`enforce_timeout`] decides from the mark that the
/// store hands out: a valid session gets `now` for its mark, an unreadable
/// mark is removed, and an expired session is logged out.
///
/// Succeeds only with a key in custody, which it leaves there, and only
/// for a session without a mark or with one that is not older than the
/// timeout; the mark then reads `now`. Every failure is as
/// [`guard_failure`] says.
pub fn guard_session<S: SessionKeyStore, M: ActivityMarkStore>(
    key_store: &mut S,
    marks: &mut M,
    now: i64,
    timeout_secs: u64,
) -> (r: Result<(), ChacrabError>)
    ensures
        old(key_store).stored() is None ==> r is Err,
        r is Ok ==> {
            &&& final(key_store).stored() is Some
            &&& final(key_store).stored() == old(key_store).stored()
            &&& timeout_decision(old(marks).mark(), now as int, timeout_secs as int)
                == TimeoutDecision::Refresh
            &&& final(marks).mark() == Some(integer_text(now as int))
        },
        r matches Err(e) ==> guard_failure(
            old(key_store).stored(),
            old(marks).mark(),
            final(key_store).stored(),
            final(marks).mark(),
            now as int,
            timeout_secs as int,
            e@,
        ),
{
    match key_store.load() {
        Ok(mut key) => {
            wipe_key(&mut key);
        },
        Err(e) => {
            return Err(e);
        },
    }
    let found = marks.load_mark();
    let decision = enforce_timeout(&found, now, timeout_secs);
    let acted = match decision {
        TimeoutDecision::Refresh => {
            let mark = touch_session(now);
            marks.store_mark(mark.as_str())
        },
        TimeoutDecision::ClearMark => marks.clear_mark(),
        TimeoutDecision::EndSession => logout(key_store, marks),
    };
    match acted {
        Ok(()) => timeout_error(decision),
        Err(e) => Err(e),
    }
}

/// The session key in custody; `NoActiveSession` where there is none,
/// unless the store itself failed.
pub fn current_session_key<S: SessionKeyStore>(key_store: &S) -> (r: Result<
    [u8; 32],
    ChacrabError,
>)
    ensures
        r matches Ok(key) ==> key_store.stored() == Some(key@),
        key_store.stored() is None ==> r is Err,
        r matches Err(e) ==> is_custody_failure(e@) || (e@ == ErrorKind::NoActiveSession
            && key_store.stored() is None),
{
    key_store.load()
}

/// The state of a session, from what loading its key came to: active
/// exactly when the key was loaded.
pub fn loaded_state(loaded: &Result<[u8; 32], ChacrabError>) -> (state: SessionState)
    ensures
        state == SessionState::Active <==> loaded is Ok,
        state == SessionState::Locked <==> loaded is Err,
{
    match loaded {
        Ok(_) => SessionState::Active,
        Err(_) => SessionState::Locked,
    }
}

/// Whether a session key is in custody and can be loaded, as
/// [`loaded_state`] says of the attempt to load it.
pub fn session_state<S: SessionKeyStore>(key_store: &S) -> (state: SessionState)
    ensures
        state == SessionState::Active ==> key_store.stored() is Some,
        key_store.stored() is None ==> state == SessionState::Locked,
{
    let mut loaded = key_store.load();
    let state = loaded_state(&loaded);
    match &mut loaded {
        Ok(key) => {
            wipe_key(key);
        },
        Err(_) => {},
    }
    state
}

} // verus!
