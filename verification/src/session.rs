//! The lifetime of a session: the text form of the session key and of the
//! last-activity mark in a string-typed secret store, and the idle timeout.

use vstd::prelude::*;
use crate::crypto::zeroize_vec;
use crate::encoding::{base64_bytes, base64_decode, base64_encode, base64_text};
use crate::errors::{ChacrabError, ErrorKind};
use crate::numbers::{i64_value, integer_text, parse_i64, render_i64};

verus! {

/// Whether a session key is in custody.
#[derive(Clone, Copy, Debug, PartialEq, Eq, Structural)]
pub enum SessionState {
    Active,
    Locked,
}

/// What the idle-timeout check asks the caller to do.
#[derive(Clone, Copy, Debug, PartialEq, Eq, Structural)]
pub enum TimeoutDecision {
    /// The session is valid: write the current time as the last activity
    /// and go on.
    Refresh,
    /// The last-activity mark is unreadable: clear it and fail with
    /// `SessionExpired`.
    ClearMark,
    /// The session is older than the timeout: clear the session key and the
    /// mark and fail with `SessionExpired`.
    EndSession,
}

/// A session is expired when its age, the time since the last activity,
/// exceeds the timeout. An age of exactly the timeout is still valid.
pub open spec fn expired(now: int, last: int, timeout_secs: int) -> bool {
    now - last > timeout_secs
}

/// The boundary of the idle timeout is strict: a session whose age is
/// exactly the timeout is still valid, and one second later it is expired.
pub proof fn lemma_expiry_boundary(last: int, timeout_secs: int)
    ensures
        !expired(last + timeout_secs, last, timeout_secs),
        expired(last + timeout_secs + 1, last, timeout_secs),
        forall|now: int| now <= last + timeout_secs ==> !expired(now, last, timeout_secs),
        forall|now: int| now > last + timeout_secs ==> expired(now, last, timeout_secs),
{
}

/// Whether a session last active at `last` is expired at `now`, both in
/// seconds since the Unix epoch.
pub fn is_expired(now: i64, last: i64, timeout_secs: u64) -> (r: bool)
    ensures
        r == expired(now as int, last as int, timeout_secs as int),
{
    let age: i128 = now as i128 - last as i128;
    age > timeout_secs as i128
}

/// What the idle-timeout check decides from the stored last-activity mark.
pub open spec fn timeout_decision(stored: Option<Seq<char>>, now: int, timeout_secs: int) -> TimeoutDecision {
    match stored {
        None => TimeoutDecision::Refresh,
        Some(text) => match i64_value(text) {
            None => TimeoutDecision::ClearMark,
            Some(last) => if expired(now, last as int, timeout_secs) {
                TimeoutDecision::EndSession
            } else {
                TimeoutDecision::Refresh
            },
        },
    }
}

/// Checks the idle timeout for an operation that is about to use the
/// session key. `stored` is the last-activity mark of the secret store, if
/// there is one.
///
/// A session without a mark is valid and gets one. A mark that is no
/// number ends in `ClearMark`, a session older than the timeout in
/// `EndSession`; every other session is refreshed.
pub fn enforce_timeout(stored: &Option<String>, now: i64, timeout_secs: u64) -> (decision:
    TimeoutDecision)
    ensures
        decision == timeout_decision(
            crate::models::text_view(*stored),
            now as int,
            timeout_secs as int,
        ),
{
    match stored {
        None => TimeoutDecision::Refresh,
        Some(text) => match parse_i64(text.as_str()) {
            None => TimeoutDecision::ClearMark,
            Some(last) => if is_expired(now, last, timeout_secs) {
                TimeoutDecision::EndSession
            } else {
                TimeoutDecision::Refresh
            },
        },
    }
}

/// The last-activity mark for a session active at `now`: the seconds since
/// the Unix epoch in decimal notation. [`enforce_timeout`] reads it back as
/// `now`.
pub fn touch_session(now: i64) -> (mark: String)
    ensures
        mark@ == integer_text(now as int),
        i64_value(mark@) == Some(now),
{
    render_i64(now)
}

/// The error with which the check of the idle timeout ends, if it ends
/// with one.
pub fn timeout_error(decision: TimeoutDecision) -> (r: Result<(), ChacrabError>)
    ensures
        r is Ok <==> decision == TimeoutDecision::Refresh,
        r matches Err(e) ==> e@ == ErrorKind::SessionExpired,
{
    match decision {
        TimeoutDecision::Refresh => Ok(()),
        _ => Err(ChacrabError::SessionExpired),
    }
}

/// The text under which a session key is kept in a string-typed secret
/// store: its base64, standard alphabet, padded.
pub fn encode_session_key(key: &[u8; 32]) -> (text: String)
    ensures
        text@ == base64_text(key@),
        session_key_of(text@) == Some(key@),
{
    base64_encode(key.as_slice())
}

/// The session key that a stored text holds: the 32 bytes that it is the
/// base64 of.
pub open spec fn session_key_of(text: Seq<char>) -> Option<Seq<u8>> {
    match base64_bytes(text) {
        Some(bytes) => if bytes.len() == 32 {
            Some(bytes)
        } else {
            None
        },
        None => None,
    }
}

/// Reads a session key back from its stored text.
///
/// A text that is no base64 of 32 bytes holds no session:
/// `NoActiveSession`. The decoded bytes are wiped on every path.
pub fn decode_session_key(text: &str) -> (r: Result<[u8; 32], ChacrabError>)
    ensures
        match r {
            Ok(key) => session_key_of(text@) == Some(key@),
            Err(e) => e@ == ErrorKind::NoActiveSession && session_key_of(text@) is None,
        },
{
    let mut decoded = match base64_decode(text) {
        Some(bytes) => bytes,
        None => {
            return Err(ChacrabError::NoActiveSession);
        },
    };
    if decoded.len() != 32 {
        zeroize_vec(&mut decoded);
        return Err(ChacrabError::NoActiveSession);
    }
    let mut key: [u8; 32] = [0u8; 32];
    let mut i: usize = 0;
    while i < 32
        invariant
            i <= 32,
            decoded.len() == 32,
            forall|k: int| 0 <= k < i ==> key@[k] == decoded@[k],
        decreases 32 - i,
    {
        key[i] = decoded[i];
        i += 1;
    }
    assert(key@ =~= decoded@);
    zeroize_vec(&mut decoded);
    Ok(key)
}

} // verus!
