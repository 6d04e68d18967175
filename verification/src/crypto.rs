//! Key derivation with Argon2id, authenticated encryption with
//! ChaCha20-Poly1305, salt and nonce generation, and wiping of secrets.

use argon2::password_hash::rand_core::OsRng;
use argon2::password_hash::{PasswordHash, PasswordHasher, PasswordVerifier, SaltString};
use argon2::{Algorithm, Argon2, Params, Version};
use chacha20poly1305::aead::{Aead, KeyInit};
use chacha20poly1305::{ChaCha20Poly1305, Key, Nonce};
use rand::RngCore;
use vstd::prelude::*;
use vstd::utf8::{encode_utf8, is_ascii_chars};
use zeroize::Zeroize;
use crate::errors::{ChacrabError, ErrorKind};

verus! {

/// The length of a derived key in bytes.
pub const KEY_SIZE: usize = 32;

/// The length of a nonce in bytes.
pub const NONCE_SIZE: usize = 12;

/// The number of random bytes in a generated salt.
pub const SALT_LEN: usize = 16;

/// The length of the authentication tag that follows a ciphertext body.
pub const TAG_SIZE: usize = 16;

/// The default memory cost of the key derivation, in KiB.
pub const ARGON2_M_COST: u32 = 65_536;

/// The default number of passes of the key derivation.
pub const ARGON2_T_COST: u32 = 3;

/// The default parallelism of the key derivation.
pub const ARGON2_P_COST: u32 = 1;

/// A ciphertext with the nonce it was made with.
#[derive(Debug)]
pub struct CipherBlob {
    /// The encrypted body followed by its authentication tag.
    pub ciphertext: Vec<u8>,
    pub nonce: [u8; 12],
}

impl Clone for CipherBlob {
    fn clone(&self) -> (copy: Self)
        ensures
            copy.ciphertext@ == self.ciphertext@,
            copy.nonce == self.nonce,
    {
        CipherBlob { ciphertext: self.ciphertext.clone(), nonce: self.nonce }
    }
}

/// What registration stores: the salt and the verifier of the derived key.
#[derive(Debug)]
pub struct RegistrationMaterial {
    pub salt_b64: String,
    pub verifier: String,
}

impl Clone for RegistrationMaterial {
    fn clone(&self) -> (copy: Self)
        ensures
            copy.salt_b64@ == self.salt_b64@,
            copy.verifier@ == self.verifier@,
    {
        RegistrationMaterial { salt_b64: self.salt_b64.clone(), verifier: self.verifier.clone() }
    }
}

/// The bytes that a salt in the unpadded base64 of password hashes stands
/// for; `None` where the text is no such salt.
pub uninterp spec fn salt_bytes(salt_b64: Seq<char>) -> Option<Seq<u8>>;

/// The 32-byte output of Argon2id (version 0x13) for a password and a salt,
/// both taken as their UTF-8 bytes, under the given costs.
pub uninterp spec fn argon2id_key(
    password: Seq<char>,
    salt: Seq<char>,
    m_cost: u32,
    t_cost: u32,
    p_cost: u32,
) -> Seq<u8>;

/// The PHC string of the Argon2id hash of `secret` under the salt that
/// `salt_b64` encodes and the given costs.
pub uninterp spec fn argon2id_phc_text(
    secret: Seq<u8>,
    salt_b64: Seq<char>,
    m_cost: u32,
    t_cost: u32,
    p_cost: u32,
) -> Seq<char>;

/// Every parameter that a PHC string declares, in the order and as often
/// as it stands there: its name, and its value where that is a decimal
/// number of 32 bits. A text that is no PHC string declares none.
pub uninterp spec fn phc_declared_costs(verifier: Seq<char>) -> Seq<(Seq<char>, Option<u32>)>;

/// Whether `verifier` is a PHC string whose hash is the Argon2 hash of
/// `secret` under the algorithm, salt and costs that the string names.
pub uninterp spec fn argon2_verifies(secret: Seq<u8>, verifier: Seq<char>) -> bool;

/// The ciphertext, body and tag, of `plaintext` under ChaCha20-Poly1305 with
/// the given key and nonce and no associated data.
pub uninterp spec fn chacha20poly1305_seal(key: Seq<u8>, nonce: Seq<u8>, plaintext: Seq<u8>) -> Seq<
    u8,
>;

/// The plaintext that `ciphertext` authenticates and decrypts to under
/// ChaCha20-Poly1305 with the given key and nonce; `None` on a tag mismatch.
pub uninterp spec fn chacha20poly1305_open(key: Seq<u8>, nonce: Seq<u8>, ciphertext: Seq<u8>) -> Option<
    Seq<u8>,
>;

/// The costs that Argon2 accepts for a 32-byte output: at least 8 KiB of
/// memory and 8 KiB per lane, at least one pass, and between one and
/// 16,777,215 lanes.
pub open spec fn costs_accepted(m_cost: u32, t_cost: u32, p_cost: u32) -> bool {
    &&& m_cost >= 8
    &&& m_cost >= 8 * p_cost
    &&& t_cost >= 1
    &&& 1 <= p_cost <= 0xFF_FFFF
}

/// The memory that the costs ask for can be addressed on this machine.
pub open spec fn memory_fits(m_cost: u32) -> bool {
    m_cost * 1024 <= isize::MAX
}

/// The inputs that Argon2 accepts: costs in range, a password of at most
/// 4 GiB and a salt of 8 bytes to 4 GiB.
pub open spec fn argon2_accepts(
    password: Seq<char>,
    salt: Seq<char>,
    m_cost: u32,
    t_cost: u32,
    p_cost: u32,
) -> bool {
    &&& costs_accepted(m_cost, t_cost, p_cost)
    &&& encode_utf8(password).len() <= 0xFFFF_FFFF
    &&& 8 <= encode_utf8(salt).len() <= 0xFFFF_FFFF
}

/// The inputs from which a verifier can be made: accepted costs and a salt
/// that decodes to at least 8 bytes.
pub open spec fn verifier_inputs_accepted(
    salt_b64: Seq<char>,
    m_cost: u32,
    t_cost: u32,
    p_cost: u32,
) -> bool {
    &&& costs_accepted(m_cost, t_cost, p_cost)
    &&& salt_bytes(salt_b64) matches Some(bytes) && bytes.len() >= 8
}

/// A salt that key derivation takes: valid base64 of at least 16 bytes.
pub open spec fn salt_is_acceptable(salt_b64: Seq<char>) -> bool {
    salt_bytes(salt_b64) matches Some(bytes) && bytes.len() >= SALT_LEN
}

/// The key that the master password and the salt derive under the given
/// costs; `None` where the salt or the costs are turned away.
pub open spec fn derived_key(
    password: Seq<char>,
    salt_b64: Seq<char>,
    m_cost: u32,
    t_cost: u32,
    p_cost: u32,
) -> Option<Seq<u8>> {
    if salt_is_acceptable(salt_b64) && memory_fits(m_cost) && argon2_accepts(
        password,
        salt_b64,
        m_cost,
        t_cost,
        p_cost,
    ) {
        Some(argon2id_key(password, salt_b64, m_cost, t_cost, p_cost))
    } else {
        None
    }
}

/// One parameter of a PHC string as it is declared.
#[derive(Debug)]
pub struct DeclaredCost {
    pub name: String,
    /// The value, where it is a decimal number of 32 bits.
    pub value: Option<u32>,
}

impl View for DeclaredCost {
    type V = (Seq<char>, Option<u32>);

    open spec fn view(&self) -> (Seq<char>, Option<u32>) {
        (self.name@, self.value)
    }
}

/// The views of `costs`, in order.
pub open spec fn costs_view(costs: Seq<DeclaredCost>) -> Seq<(Seq<char>, Option<u32>)> {
    Seq::new(costs.len(), |i: int| costs[i]@)
}

/// A declared parameter can be handed to Argon2 on this machine: a
/// parallelism `p` is at most 16,777,215 and the memory that an `m` asks for
/// can be addressed.
pub open spec fn cost_fits(cost: (Seq<char>, Option<u32>)) -> bool {
    cost.1 matches Some(value) ==> (cost.0 == "p"@ ==> value <= 0xFF_FFFF) && (cost.0 == "m"@
        ==> memory_fits(value))
}

/// Every cost that a verifier declares can be handed to Argon2 on this
/// machine, also where the verifier declares a cost more than once.
pub open spec fn verifier_costs_fit(verifier: Seq<char>) -> bool {
    forall|i: int|
        0 <= i < phc_declared_costs(verifier).len() ==> cost_fits(
            #[trigger] phc_declared_costs(verifier)[i],
        )
}

/// The key that a login with `password` yields: the derived key, provided
/// that the verifier confirms it.
pub open spec fn verified_key(
    password: Seq<char>,
    salt_b64: Seq<char>,
    verifier: Seq<char>,
    m_cost: u32,
    t_cost: u32,
    p_cost: u32,
) -> Option<Seq<u8>> {
    match derived_key(password, salt_b64, m_cost, t_cost, p_cost) {
        Some(key) => if verifier_costs_fit(verifier) && argon2_verifies(key, verifier) {
            Some(key)
        } else {
            None
        },
        None => None,
    }
}

/// The plaintext lengths that one encryption can take: fewer than
/// 2^32 - 1 blocks of 64 bytes, and room for the tag in one allocation.
pub open spec fn sealable(len: nat) -> bool {
    len / 64 < 0xFFFF_FFFF && len + TAG_SIZE <= isize::MAX
}

/// Calls `SaltString::generate` of the password-hash crate with the
/// operating system's random source. Every outcome is the unpadded base64
/// of 16 bytes: 22 ASCII characters.
#[verifier::external_body]
pub fn generate_salt() -> (salt: String)
    ensures
        salt_bytes(salt@) is Some,
        salt_bytes(salt@)->0.len() == SALT_LEN,
        is_ascii_chars(salt@),
        salt@.len() == 22,
{
    SaltString::generate(&mut OsRng).to_string()
}

/// Calls `SaltString::from_b64` and `decode_b64` of the password-hash
/// crate. A text that both accept has 4 to 64 ASCII characters and decodes
/// to no more bytes than it has characters.
#[verifier::external_body]
fn decode_salt(salt_b64: &str) -> (decoded: Option<Vec<u8>>)
    ensures
        match decoded {
            Some(bytes) => salt_bytes(salt_b64@) == Some(bytes@) && is_ascii_chars(salt_b64@) && 4
                <= salt_b64@.len() <= 64 && bytes@.len() <= salt_b64@.len(),
            None => salt_bytes(salt_b64@) is None,
        },
{
    let salt = SaltString::from_b64(salt_b64).ok()?;
    let mut buffer = [0u8; 64];
    salt.decode_b64(&mut buffer).ok().map(|bytes| bytes.to_vec())
}

/// Calls `Argon2::hash_password_into` of the argon2 crate, with Argon2id,
/// version 0x13 and the given costs, on the UTF-8 bytes of the password and
/// of the salt text. It succeeds exactly on the inputs that Argon2 accepts.
/// The memory that the costs ask for is allocated by the call.
#[verifier::external_body]
fn argon2id_raw(password: &str, salt: &str, m_cost: u32, t_cost: u32, p_cost: u32) -> (key: Option<
    [u8; 32],
>)
    requires
        p_cost <= 0xFF_FFFF,
        memory_fits(m_cost),
    ensures
        key is Some <==> argon2_accepts(password@, salt@, m_cost, t_cost, p_cost),
        key matches Some(k) ==> k@ == argon2id_key(password@, salt@, m_cost, t_cost, p_cost),
{
    let params = Params::new(m_cost, t_cost, p_cost, Some(KEY_SIZE)).ok()?;
    let argon2 = Argon2::new(Algorithm::Argon2id, Version::V0x13, params);
    let mut out = [0u8; KEY_SIZE];
    argon2.hash_password_into(password.as_bytes(), salt.as_bytes(), &mut out).ok()?;
    Some(out)
}

/// Calls `PasswordHasher::hash_password` of the argon2 crate, with
/// Argon2id, version 0x13 and the given costs, and renders the hash as a PHC
/// string. It succeeds exactly when the costs are accepted and the salt
/// decodes to at least 8 bytes. The string declares the costs it was made
/// with, as `m`, `t` and `p` and each once, and verifying `secret` against
/// it succeeds.
#[verifier::external_body]
fn argon2id_phc(secret: &[u8; 32], salt_b64: &str, m_cost: u32, t_cost: u32, p_cost: u32) -> (phc:
    Result<String, argon2::password_hash::Error>)
    requires
        p_cost <= 0xFF_FFFF,
        memory_fits(m_cost),
    ensures
        phc is Ok <==> verifier_inputs_accepted(salt_b64@, m_cost, t_cost, p_cost),
        phc matches Ok(text) ==> text@ == argon2id_phc_text(
            secret@,
            salt_b64@,
            m_cost,
            t_cost,
            p_cost,
        ) && argon2_verifies(secret@, text@) && phc_declared_costs(text@) == seq![
            ("m"@, Some(m_cost)),
            ("t"@, Some(t_cost)),
            ("p"@, Some(p_cost)),
        ],
{
    let params = Params::new(m_cost, t_cost, p_cost, Some(KEY_SIZE))?;
    let argon2 = Argon2::new(Algorithm::Argon2id, Version::V0x13, params);
    let salt = SaltString::from_b64(salt_b64)?;
    Ok(argon2.hash_password(secret, &salt)?.to_string())
}

/// Calls `PasswordHash::new` of the password-hash crate, walks the
/// parameters with `ParamsString::iter` and reads each value with
/// `Value::decimal`.
#[verifier::external_body]
fn phc_costs(verifier: &str) -> (costs: Vec<DeclaredCost>)
    ensures
        costs_view(costs@) == phc_declared_costs(verifier@),
{
    match PasswordHash::new(verifier) {
        Ok(hash) => hash.params.iter().map(
            |(name, value)| DeclaredCost { name: name.as_str().to_owned(), value: value.decimal().ok() },
        ).collect(),
        Err(_) => Vec::new(),
    }
}

/// Calls `PasswordVerifier::verify_password` of the argon2 crate on the
/// parsed verifier. The hash is recomputed with the costs that the verifier
/// declares, of a cost that is declared more than once with the last, and
/// compared in constant time; a text that is no PHC string verifies
/// nothing. The call is made only where every declared cost fits.
#[verifier::external_body]
fn argon2_verify(secret: &[u8; 32], verifier: &str) -> (accepted: bool)
    requires
        verifier_costs_fit(verifier@),
    ensures
        accepted == argon2_verifies(secret@, verifier@),
{
    match PasswordHash::new(verifier) {
        Ok(hash) => Argon2::default().verify_password(secret, &hash).is_ok(),
        Err(_) => false,
    }
}

/// Calls `RngCore::fill_bytes` on the thread-local generator of the rand
/// crate. Nothing is known of the bytes.
#[verifier::external_body]
pub(crate) fn fresh_nonce() -> (nonce: [u8; 12])
{
    let mut nonce = [0u8; NONCE_SIZE];
    rand::rng().fill_bytes(&mut nonce);
    nonce
}

/// Calls `Aead::encrypt` of ChaCha20-Poly1305. It succeeds exactly on a
/// plaintext of fewer than 2^32 - 1 blocks; the ciphertext is 16 bytes
/// longer than the plaintext, and opening it under the same key and nonce
/// gives the plaintext back.
#[verifier::external_body]
fn seal(key: &[u8; 32], nonce: &[u8; 12], plaintext: &[u8]) -> (sealed: Result<
    Vec<u8>,
    chacha20poly1305::aead::Error,
>)
    requires
        plaintext@.len() + TAG_SIZE <= isize::MAX,
    ensures
        sealed is Ok <==> plaintext@.len() / 64 < 0xFFFF_FFFF,
        sealed matches Ok(ciphertext) ==> ciphertext@ == chacha20poly1305_seal(
            key@,
            nonce@,
            plaintext@,
        ) && ciphertext@.len() == plaintext@.len() + TAG_SIZE && chacha20poly1305_open(
            key@,
            nonce@,
            ciphertext@,
        ) == Some(plaintext@),
{
    let cipher = ChaCha20Poly1305::new(Key::from_slice(key));
    cipher.encrypt(Nonce::from_slice(nonce), plaintext)
}

/// Calls `Aead::decrypt` of ChaCha20-Poly1305. It fails on a tag mismatch
/// and on a ciphertext too short to hold a tag.
#[verifier::external_body]
fn open(key: &[u8; 32], nonce: &[u8; 12], ciphertext: &[u8]) -> (opened: Result<
    Vec<u8>,
    chacha20poly1305::aead::Error,
>)
    ensures
        match opened {
            Ok(plaintext) => chacha20poly1305_open(key@, nonce@, ciphertext@) == Some(plaintext@),
            Err(_) => chacha20poly1305_open(key@, nonce@, ciphertext@) is None,
        },
{
    let cipher = ChaCha20Poly1305::new(Key::from_slice(key));
    cipher.decrypt(Nonce::from_slice(nonce), ciphertext)
}

/// Calls `Zeroize::zeroize` on the buffer: every byte, the spare capacity
/// included, is overwritten with zero and the buffer is left empty.
#[verifier::external_body]
pub fn zeroize_vec(buffer: &mut Vec<u8>)
    ensures
        final(buffer)@.len() == 0,
{
    buffer.zeroize();
}

/// Calls `Zeroize::zeroize` on the key: every byte is overwritten with
/// zero.
#[verifier::external_body]
fn zeroize_key(key: &mut [u8; 32])
    ensures
        forall|i: int| 0 <= i < 32 ==> final(key)@[i] == 0,
{
    key.zeroize();
}

/// Wipes a key that is no longer needed: every byte is overwritten with
/// zero.
pub fn wipe_key(key: &mut [u8; 32])
    ensures
        final(key)@ == Seq::new(32, |i: int| 0u8),
{
    zeroize_key(key);
    assert(key@ =~= Seq::new(32, |i: int| 0u8));
}

/// Derives the 32-byte key from the master password and the salt with the
/// given Argon2id costs.
///
/// Fails with `InvalidCredentials` if the salt is not valid base64 of at
/// least 16 bytes, or if the costs or the password are turned away.
pub fn derive_key_with_params(
    master_password: &str,
    salt_b64: &str,
    m_cost: u32,
    t_cost: u32,
    p_cost: u32,
) -> (r: Result<[u8; 32], ChacrabError>)
    ensures
        match r {
            Ok(key) => derived_key(master_password@, salt_b64@, m_cost, t_cost, p_cost) == Some(
                key@,
            ),
            Err(e) => e@ == ErrorKind::InvalidCredentials && derived_key(
                master_password@,
                salt_b64@,
                m_cost,
                t_cost,
                p_cost,
            ) is None,
        },
        salt_is_acceptable(salt_b64@) ==> 16 <= encode_utf8(salt_b64@).len() <= 64,
{
    proof {
        vstd::string::is_ascii_spec_bytes(salt_b64);
    }
    match decode_salt(salt_b64) {
        Some(bytes) => {
            if bytes.len() < SALT_LEN {
                return Err(ChacrabError::InvalidCredentials);
            }
        },
        None => {
            return Err(ChacrabError::InvalidCredentials);
        },
    }
    if p_cost > 0xFF_FFFF {
        return Err(ChacrabError::InvalidCredentials);
    }
    if m_cost as u64 * 1024 > isize::MAX as u64 {
        return Err(ChacrabError::InvalidCredentials);
    }
    match argon2id_raw(master_password, salt_b64, m_cost, t_cost, p_cost) {
        Some(key) => Ok(key),
        None => Err(ChacrabError::InvalidCredentials),
    }
}

/// Derives the 32-byte key from the master password and the salt with the
/// default costs.
///
/// Fails with `InvalidCredentials` if the salt is not valid base64 of at
/// least 16 bytes or the password is longer than 4 GiB.
pub fn derive_key(master_password: &str, salt_b64: &str) -> (r: Result<[u8; 32], ChacrabError>)
    ensures
        match r {
            Ok(key) => derived_key(
                master_password@,
                salt_b64@,
                ARGON2_M_COST,
                ARGON2_T_COST,
                ARGON2_P_COST,
            ) == Some(key@),
            Err(e) => e@ == ErrorKind::InvalidCredentials && derived_key(
                master_password@,
                salt_b64@,
                ARGON2_M_COST,
                ARGON2_T_COST,
                ARGON2_P_COST,
            ) is None,
        },
        r is Ok <==> salt_is_acceptable(salt_b64@) && encode_utf8(master_password@).len()
            <= 0xFFFF_FFFF,
{
    derive_key_with_params(master_password, salt_b64, ARGON2_M_COST, ARGON2_T_COST, ARGON2_P_COST)
}

/// Whether every declared cost can be handed to Argon2 on this machine.
fn costs_fit(costs: &Vec<DeclaredCost>) -> (fit: bool)
    ensures
        fit == (forall|i: int| 0 <= i < costs.len() ==> cost_fits(#[trigger] costs_view(costs@)[i])),
{
    let mut i: usize = 0;
    while i < costs.len()
        invariant
            i <= costs.len(),
            forall|k: int| 0 <= k < i ==> cost_fits(#[trigger] costs_view(costs@)[k]),
        decreases costs.len() - i,
    {
        match costs[i].value {
            Some(value) => {
                if crate::models::same_str(costs[i].name.as_str(), "p") && value > 0xFF_FFFF {
                    assert(!cost_fits(costs_view(costs@)[i as int]));
                    return false;
                }
                if crate::models::same_str(costs[i].name.as_str(), "m") && value as u64 * 1024
                    > isize::MAX as u64 {
                    assert(!cost_fits(costs_view(costs@)[i as int]));
                    return false;
                }
            },
            None => {},
        }
        i += 1;
    }
    true
}

/// Confirms the master password against the stored verifier, under the
/// costs stored with it, and returns the derived key.
///
/// The key is derived from the password and the salt; the verifier must
/// then be a PHC string that this key verifies against. Every failure, of
/// the derivation or of the verification, is `InvalidCredentials`.
pub fn verify_password_with_params(
    master_password: &str,
    salt_b64: &str,
    verifier: &str,
    m_cost: u32,
    t_cost: u32,
    p_cost: u32,
) -> (r: Result<[u8; 32], ChacrabError>)
    ensures
        match r {
            Ok(key) => verified_key(
                master_password@,
                salt_b64@,
                verifier@,
                m_cost,
                t_cost,
                p_cost,
            ) == Some(key@),
            Err(e) => e@ == ErrorKind::InvalidCredentials && verified_key(
                master_password@,
                salt_b64@,
                verifier@,
                m_cost,
                t_cost,
                p_cost,
            ) is None,
        },
{
    let mut derived = match derive_key_with_params(master_password, salt_b64, m_cost, t_cost, p_cost) {
        Ok(key) => key,
        Err(e) => {
            return Err(e);
        },
    };
    let declared = phc_costs(verifier);
    if !costs_fit(&declared) {
        wipe_key(&mut derived);
        return Err(ChacrabError::InvalidCredentials);
    }
    if !argon2_verify(&derived, verifier) {
        wipe_key(&mut derived);
        return Err(ChacrabError::InvalidCredentials);
    }
    Ok(derived)
}

/// Confirms the master password against the stored verifier under the
/// default costs and returns the derived key.
pub fn verify_password(master_password: &str, salt_b64: &str, verifier: &str) -> (r: Result<
    [u8; 32],
    ChacrabError,
>)
    ensures
        match r {
            Ok(key) => verified_key(
                master_password@,
                salt_b64@,
                verifier@,
                ARGON2_M_COST,
                ARGON2_T_COST,
                ARGON2_P_COST,
            ) == Some(key@),
            Err(e) => e@ == ErrorKind::InvalidCredentials && verified_key(
                master_password@,
                salt_b64@,
                verifier@,
                ARGON2_M_COST,
                ARGON2_T_COST,
                ARGON2_P_COST,
            ) is None,
        },
{
    verify_password_with_params(
        master_password,
        salt_b64,
        verifier,
        ARGON2_M_COST,
        ARGON2_T_COST,
        ARGON2_P_COST,
    )
}

/// Makes the registration material for a master password under the salt
/// that the caller generated: the verifier of the derived key, and the key.
///
/// Fails with `InvalidCredentials` where the key cannot be derived. A
/// password that registers with this material is confirmed by
/// [`verify_password`] with the very key returned here.
pub fn registration_material_for_salt(master_password: &str, salt_b64: String) -> (r: Result<
    (RegistrationMaterial, [u8; 32]),
    ChacrabError,
>)
    ensures
        r is Ok <==> salt_is_acceptable(salt_b64@) && encode_utf8(master_password@).len()
            <= 0xFFFF_FFFF,
        r matches Ok((material, key)) ==> {
            &&& material.salt_b64@ == salt_b64@
            &&& derived_key(
                master_password@,
                salt_b64@,
                ARGON2_M_COST,
                ARGON2_T_COST,
                ARGON2_P_COST,
            ) == Some(key@)
            &&& material.verifier@ == argon2id_phc_text(
                key@,
                salt_b64@,
                ARGON2_M_COST,
                ARGON2_T_COST,
                ARGON2_P_COST,
            )
            &&& verified_key(
                master_password@,
                material.salt_b64@,
                material.verifier@,
                ARGON2_M_COST,
                ARGON2_T_COST,
                ARGON2_P_COST,
            ) == Some(key@)
        },
        r matches Err(e) ==> e@ == ErrorKind::InvalidCredentials,
{
    let mut derived = match derive_key(master_password, salt_b64.as_str()) {
        Ok(key) => key,
        Err(e) => {
            return Err(e);
        },
    };
    match argon2id_phc(&derived, salt_b64.as_str(), ARGON2_M_COST, ARGON2_T_COST, ARGON2_P_COST) {
        Ok(verifier) => Ok((RegistrationMaterial { salt_b64, verifier }, derived)),
        Err(e) => {
            wipe_key(&mut derived);
            Err(ChacrabError::from(e))
        },
    }
}

/// Generates a salt and makes the registration material for a master
/// password: the salt, the verifier of the derived key, and the key.
///
/// Fails only on a password longer than 4 GiB. The password is confirmed by
/// [`verify_password`] against the material, with the very key returned
/// here.
pub fn create_registration_material(master_password: &str) -> (r: Result<
    (RegistrationMaterial, [u8; 32]),
    ChacrabError,
>)
    ensures
        r is Ok <==> encode_utf8(master_password@).len() <= 0xFFFF_FFFF,
        r matches Ok((material, key)) ==> {
            &&& salt_is_acceptable(material.salt_b64@)
            &&& derived_key(
                master_password@,
                material.salt_b64@,
                ARGON2_M_COST,
                ARGON2_T_COST,
                ARGON2_P_COST,
            ) == Some(key@)
            &&& material.verifier@ == argon2id_phc_text(
                key@,
                material.salt_b64@,
                ARGON2_M_COST,
                ARGON2_T_COST,
                ARGON2_P_COST,
            )
            &&& verified_key(
                master_password@,
                material.salt_b64@,
                material.verifier@,
                ARGON2_M_COST,
                ARGON2_T_COST,
                ARGON2_P_COST,
            ) == Some(key@)
        },
        r matches Err(e) ==> e@ == ErrorKind::InvalidCredentials,
{
    let salt = generate_salt();
    registration_material_for_salt(master_password, salt)
}

/// Encrypts `plaintext` under the key and the given nonce.
///
/// Fails with `Crypto` exactly on a plaintext too long to be sealed. The
/// ciphertext is 16 bytes longer than the plaintext, and [`decrypt`] under
/// the same key and nonce gives the plaintext back.
pub fn encrypt_with_nonce(key_bytes: &[u8; 32], nonce: [u8; 12], plaintext: &[u8]) -> (r: Result<
    CipherBlob,
    ChacrabError,
>)
    ensures
        r is Ok <==> sealable(plaintext@.len()),
        r matches Ok(blob) ==> {
            &&& blob.nonce == nonce
            &&& blob.ciphertext@ == chacha20poly1305_seal(key_bytes@, nonce@, plaintext@)
            &&& blob.ciphertext@.len() == plaintext@.len() + TAG_SIZE
            &&& chacha20poly1305_open(key_bytes@, blob.nonce@, blob.ciphertext@) == Some(
                plaintext@,
            )
        },
        r matches Err(e) ==> e@ == ErrorKind::Crypto,
{
    if plaintext.len() > isize::MAX as usize - TAG_SIZE {
        return Err(ChacrabError::Crypto);
    }
    match seal(key_bytes, &nonce, plaintext) {
        Ok(ciphertext) => Ok(CipherBlob { ciphertext, nonce }),
        Err(e) => Err(ChacrabError::from(e)),
    }
}

/// Encrypts `plaintext` under the key with a fresh random nonce.
///
/// Fails with `Crypto` exactly on a plaintext too long to be sealed. The
/// ciphertext is 16 bytes longer than the plaintext, and [`decrypt`] under
/// the same key and the nonce of the blob gives the plaintext back.
pub fn encrypt(key_bytes: &[u8; 32], plaintext: &[u8]) -> (r: Result<CipherBlob, ChacrabError>)
    ensures
        r is Ok <==> sealable(plaintext@.len()),
        r matches Ok(blob) ==> {
            &&& blob.ciphertext@ == chacha20poly1305_seal(key_bytes@, blob.nonce@, plaintext@)
            &&& blob.ciphertext@.len() == plaintext@.len() + TAG_SIZE
            &&& chacha20poly1305_open(key_bytes@, blob.nonce@, blob.ciphertext@) == Some(
                plaintext@,
            )
        },
        r matches Err(e) ==> e@ == ErrorKind::Crypto,
{
    let nonce = fresh_nonce();
    encrypt_with_nonce(key_bytes, nonce, plaintext)
}

/// Authenticates and decrypts `ciphertext` under the key and the nonce.
///
/// Fails with `Crypto` on any tag mismatch.
pub fn decrypt(key_bytes: &[u8; 32], nonce: &[u8; 12], ciphertext: &[u8]) -> (r: Result<
    Vec<u8>,
    ChacrabError,
>)
    ensures
        match r {
            Ok(plaintext) => chacha20poly1305_open(key_bytes@, nonce@, ciphertext@) == Some(
                plaintext@,
            ),
            Err(e) => e@ == ErrorKind::Crypto && chacha20poly1305_open(
                key_bytes@,
                nonce@,
                ciphertext@,
            ) is None,
        },
{
    match open(key_bytes, nonce, ciphertext) {
        Ok(plaintext) => Ok(plaintext),
        Err(e) => Err(ChacrabError::from(e)),
    }
}

} // verus!
