//! The credential hasher: one-way, salted, deliberately slow.
//!
//! A password is never stored. What is stored is the byte string that
//! `bcrypt` encodes for it, which carries the salt and the work factor, and
//! a login is checked by handing the password and those bytes back to
//! `bcrypt`.

use crate::errors::ServiceError;
use vstd::prelude::*;
use vstd::string::*;
use vstd::utf8::*;

verus! {

/// The smallest work factor that `bcrypt` accepts.
pub const MIN_COST: u32 = 4;

/// The largest work factor that `bcrypt` accepts.
pub const MAX_COST: u32 = 31;

/// The length in bytes of every encoded hash.
pub const HASH_LEN: usize = 60;

/// `bcrypt::BcryptError`, the error of both primitives. Nothing is read from
/// it: every error is mapped as one.
#[verifier::external_type_specification]
#[verifier::external_body]
pub struct ExBcryptError(bcrypt::BcryptError);

/// What `bcrypt::verify` answers for a password and an encoded hash:
/// `Some(matches)`, or `None` where it reports an error.
pub uninterp spec fn bcrypt_verdict(password: Seq<char>, encoded: Seq<char>) -> Option<bool>;

/// What `String::from_utf8_lossy` makes of a byte string.
pub uninterp spec fn utf8_lossy(bytes: Seq<u8>) -> Seq<char>;

/// The text that stored hash bytes are read as: their decoding where they are
/// valid UTF-8, and the lossy decoding otherwise.
pub open spec fn hash_text(bytes: Seq<u8>) -> Seq<char> {
    if valid_utf8(bytes) {
        decode_utf8(bytes)
    } else {
        utf8_lossy(bytes)
    }
}

/// Whether `plaintext` is the password that `hash_bytes` was made from, as
/// far as `bcrypt` can tell. An error of the primitive counts as a mismatch.
pub open spec fn password_matches(plaintext: Seq<char>, hash_bytes: Seq<u8>) -> bool {
    bcrypt_verdict(plaintext, hash_text(hash_bytes)) == Some(true)
}

/// Whether `bcrypt` accepts `cost` as a work factor.
pub open spec fn cost_supported(cost: u32) -> bool {
    MIN_COST <= cost <= MAX_COST
}

/// Calls `bcrypt::hash`, which salts the password from the operating
/// system's random source.
///
/// Trusted: a hash that comes back verifies against the password it was made
/// from, and a work factor outside `MIN_COST..=MAX_COST` is refused. Nothing
/// is promised of which hash comes back, nor that one does.
#[verifier::external_body]
fn bcrypt_hash(password: &str, cost: u32) -> (answer: Result<String, bcrypt::BcryptError>)
    ensures
        answer matches Ok(encoded) ==> bcrypt_verdict(password@, encoded@) == Some(true),
        !cost_supported(cost) ==> answer is Err,
{
    bcrypt::hash(password, cost)
}

/// Calls `bcrypt::verify`.
///
/// Trusted: the answer depends on the password and the encoded hash alone;
/// `bcrypt_verdict` is its name.
#[verifier::external_body]
fn bcrypt_verify(password: &str, encoded: &str) -> (answer: Result<bool, bcrypt::BcryptError>)
    ensures
        bcrypt_verdict(password@, encoded@) == (match answer {
            Ok(matches) => Some(matches),
            Err(_) => None,
        }),
{
    bcrypt::verify(password, encoded)
}

/// Reads `bcrypt::DEFAULT_COST`.
///
/// Trusted: the value is 12.
#[verifier::external_body]
fn bcrypt_default_cost() -> (cost: u32)
    ensures
        cost == 12,
{
    bcrypt::DEFAULT_COST
}

/// Calls `String::from_utf8_lossy` and takes ownership of the text.
///
/// Trusted: valid UTF-8 is decoded as it stands; what becomes of anything
/// else is only named.
#[verifier::external_body]
fn text_of_bytes(bytes: &[u8]) -> (text: String)
    ensures
        valid_utf8(bytes@) ==> text@ == decode_utf8(bytes@),
        !valid_utf8(bytes@) ==> text@ == utf8_lossy(bytes@),
{
    String::from_utf8_lossy(bytes).into_owned()
}

/// Turns the answer of the hashing primitive into the bytes to store.
///
/// An error of the primitive, and a hash of any length but `HASH_LEN`, is an
/// internal error; otherwise the result is the UTF-8 encoding of the hash.
pub fn hash_outcome(answer: Result<String, bcrypt::BcryptError>) -> (stored: Result<
    Vec<u8>,
    ServiceError,
>)
    ensures
        stored is Ok <==> (answer matches Ok(encoded) && encode_utf8(encoded@).len() == HASH_LEN),
        stored matches Ok(bytes) ==> answer matches Ok(encoded) && bytes@ == encode_utf8(encoded@),
        stored matches Err(e) ==> e == ServiceError::InternalError,
{
    match answer {
        Ok(encoded) => {
            let bytes = encoded.as_str().as_bytes_vec();
            if bytes.len() == HASH_LEN {
                Ok(bytes)
            } else {
                Err(ServiceError::InternalError)
            }
        },
        Err(_) => Err(ServiceError::InternalError),
    }
}

/// Turns the answer of the verifying primitive into a decision: only a
/// clean `true` lets a login through.
pub fn verify_outcome(answer: Result<bool, bcrypt::BcryptError>) -> (ok: bool)
    ensures
        ok <==> (answer matches Ok(matches) && matches),
{
    match answer {
        Ok(matches) => matches,
        Err(_) => false,
    }
}

/// The credential hasher, set up with its work factor.
#[derive(Clone, Copy, Debug)]
pub struct Hasher {
    cost: u32,
}

impl Hasher {
    /// The work factor: each step up doubles the time a hash takes.
    pub closed spec fn cost(&self) -> u32 {
        self.cost
    }

    /// A hasher with the work factor that `bcrypt` recommends.
    pub fn new() -> (hasher: Hasher)
        ensures
            hasher.cost() == 12,
            cost_supported(hasher.cost()),
    {
        Hasher { cost: bcrypt_default_cost() }
    }

    /// A hasher with the given work factor. An unsupported one is accepted
    /// here and makes every `hash` fail.
    pub fn with_cost(cost: u32) -> (hasher: Hasher)
        ensures
            hasher.cost() == cost,
    {
        Hasher { cost }
    }

    /// The work factor this hasher was set up with.
    pub fn work_factor(&self) -> (cost: u32)
        ensures
            cost == self.cost(),
    {
        self.cost
    }

    /// Hashes a password with a fresh salt.
    ///
    /// Two calls on one password give different bytes, so nothing says which
    /// bytes come back. Whatever comes back has `HASH_LEN` bytes and matches
    /// the password it was made from. A failure of the primitive, which an
    /// unsupported work factor always causes, is an internal error.
    pub fn hash(&self, plaintext: &str) -> (stored: Result<Vec<u8>, ServiceError>)
        ensures
            stored matches Ok(bytes) ==> bytes@.len() == HASH_LEN && password_matches(
                plaintext@,
                bytes@,
            ),
            stored matches Err(e) ==> e == ServiceError::InternalError,
            !cost_supported(self.cost()) ==> stored is Err,
    {
        let answer = bcrypt_hash(plaintext, self.cost);
        proof {
            if answer is Ok {
                encode_utf8_valid_utf8(answer->Ok_0@);
                encode_utf8_decode_utf8(answer->Ok_0@);
            }
        }
        hash_outcome(answer)
    }

    /// Checks a password against stored hash bytes. The salt and the work
    /// factor are read from the bytes; the comparison of the digests takes
    /// the same time wherever they differ.
    pub fn verify(&self, plaintext: &str, hash_bytes: &[u8]) -> (ok: bool)
        ensures
            ok == password_matches(plaintext@, hash_bytes@),
    {
        let encoded = text_of_bytes(hash_bytes);
        let answer = bcrypt_verify(plaintext, encoded.as_str());
        verify_outcome(answer)
    }
}

} // verus!
