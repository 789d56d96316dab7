//! Secrets: random bytes, stream keys and password hashes.
//!
//! The operating system's generator is the only source of randomness, Argon2
//! the only password hash. What this module states about them is believed, not
//! proved; each such item says so.

use argon2::password_hash::{Error, PasswordHash, PasswordHasher, PasswordVerifier, SaltString};
use argon2::Argon2;
use rand::distributions::{Alphanumeric, DistString};
use rand_core::{OsRng, RngCore};
use vstd::prelude::*;
use vstd::string::*;
use vstd::utf8::encode_utf8;
use crate::errors::{PasswordHashError, PasswordHashErrorView};

verus! {

/// Number of random characters in the short run of a stream key.
pub const KEY_SHORT_RUN: usize = 8;

/// Number of random characters in the long run of a stream key.
pub const KEY_LONG_RUN: usize = 30;

/// An ASCII letter or digit.
pub open spec fn is_alphanumeric(c: char) -> bool {
    ||| 'a' <= c <= 'z'
    ||| 'A' <= c <= 'Z'
    ||| '0' <= c <= '9'
}

/// Every character of `run` is an ASCII letter or digit.
pub open spec fn all_alphanumeric(run: Seq<char>) -> bool {
    forall|i: int| 0 <= i < run.len() ==> is_alphanumeric(#[trigger] run[i])
}

/// The shape of a stream key: the word `stream`, an underscore, a short run
/// of random letters and digits, an underscore, and a long run of them.
pub open spec fn is_stream_key(key: Seq<char>) -> bool {
    exists|short: Seq<char>, long: Seq<char>|
        #![trigger stream_key_of(short, long)]
        {
            &&& short.len() == KEY_SHORT_RUN
            &&& long.len() == KEY_LONG_RUN
            &&& all_alphanumeric(short)
            &&& all_alphanumeric(long)
            &&& key == stream_key_of(short, long)
        }
}

/// The stream key made of the two runs `short` and `long`.
pub open spec fn stream_key_of(short: Seq<char>, long: Seq<char>) -> Seq<char> {
    "stream_"@ + short + "_"@ + long
}

/// There are stream keys: the one whose runs are all `a` is of the proper
/// shape.
pub proof fn lemma_stream_key_exists() -> (key: Seq<char>)
    ensures
        is_stream_key(key),
{
    let short = Seq::new(KEY_SHORT_RUN as nat, |i: int| 'a');
    let long = Seq::new(KEY_LONG_RUN as nat, |i: int| 'a');
    assert(all_alphanumeric(short));
    assert(all_alphanumeric(long));
    stream_key_of(short, long)
}

/// A stream key is forty-six characters long and holds nothing but ASCII
/// letters, ASCII digits and underscores.
pub proof fn lemma_stream_key_shape(key: Seq<char>)
    requires
        is_stream_key(key),
    ensures
        key.len() == 7 + KEY_SHORT_RUN + 1 + KEY_LONG_RUN,
        forall|i: int| 0 <= i < key.len() ==> is_alphanumeric(#[trigger] key[i]) || key[i] == '_',
{
    reveal_strlit("stream_");
    reveal_strlit("_");
    let (short, long) = choose|short: Seq<char>, long: Seq<char>|
        #![trigger stream_key_of(short, long)]
        {
            &&& short.len() == KEY_SHORT_RUN
            &&& long.len() == KEY_LONG_RUN
            &&& all_alphanumeric(short)
            &&& all_alphanumeric(long)
            &&& key == stream_key_of(short, long)
        };
    assert forall|i: int| 0 <= i < key.len() implies is_alphanumeric(#[trigger] key[i]) || key[i]
        == '_' by {
        if i < 7 {
            assert(key[i] == "stream_"@[i]);
        } else if i < 15 {
            assert(key[i] == short[i - 7]);
        } else if i == 15 {
            assert(key[i] == '_');
        } else {
            assert(key[i] == long[i - 16]);
        }
    }
}

/// The encoded hash that Argon2id with its default parameters computes of
/// `password` under `salt`, or the failure it reports.
pub uninterp spec fn argon2_hash_of(password: Seq<u8>, salt: Seq<char>) -> Result<
    Seq<char>,
    PasswordHashErrorView,
>;

/// What Argon2 finds when it holds `password` against the encoded hash
/// `hash`: `None` if `hash` is no encoded hash at all, otherwise whether the
/// password belongs to it.
pub uninterp spec fn argon2_check(hash: Seq<char>, password: Seq<u8>) -> Option<bool>;

/// Mathematical value of the outcome of hashing.
pub open spec fn hashed(r: Result<String, PasswordHashError>) -> Result<
    Seq<char>,
    PasswordHashErrorView,
> {
    match r {
        Ok(hash) => Ok(hash@),
        Err(e) => Err(e@),
    }
}

/// `password` is the password that `hash` was computed from, as far as
/// Argon2 can tell. A text that is no encoded hash matches no password.
pub open spec fn password_matches(hash: Seq<char>, password: Seq<u8>) -> bool {
    argon2_check(hash, password) == Some(true)
}

/// The bytes of a password as they are hashed: its UTF-8 encoding.
pub open spec fn password_bytes(password: Seq<char>) -> Seq<u8> {
    encode_utf8(password)
}

/// Overwrites `buffer` with bytes from the operating system's generator
/// (`OsRng::fill_bytes` of rand_core). Believed: the length stays; nothing is
/// known of the bytes. The call aborts the process if the operating system
/// has no randomness to give.
#[verifier::external_body]
fn fill_random(buffer: &mut Vec<u8>)
    ensures
        final(buffer)@.len() == old(buffer)@.len(),
{
    OsRng.fill_bytes(buffer);
}

/// `len` random letters and digits (`Alphanumeric::sample_string` of rand,
/// fed by `OsRng`). Believed: the result has `len` characters, each an ASCII
/// letter or digit.
#[verifier::external_body]
fn random_alphanumeric(len: usize) -> (run: String)
    requires
        len <= KEY_LONG_RUN,
    ensures
        run@.len() == len,
        all_alphanumeric(run@),
{
    Alphanumeric.sample_string(&mut OsRng, len)
}

/// A fresh random salt in the encoding that Argon2 takes
/// (`SaltString::generate` of password-hash, fed by `OsRng`). Nothing is
/// claimed of it.
#[verifier::external_body]
fn fresh_salt() -> (salt: String) {
    SaltString::generate(&mut OsRng).as_str().to_owned()
}

/// Hashes `password` under `salt` with Argon2id and its default parameters
/// (`Argon2::hash_password` of argon2). Believed: the outcome is a function
/// of the two arguments, and a hash that comes out is one that Argon2 accepts
/// for the same password.
#[verifier::external_body]
fn argon2_hash(password: &[u8], salt: &str) -> (r: Result<String, PasswordHashError>)
    ensures
        hashed(r) == argon2_hash_of(password@, salt@),
        r matches Ok(hash) ==> argon2_check(hash@, password@) == Some(true),
{
    SaltString::from_b64(salt)
        .and_then(|salt| Argon2::default().hash_password(password, &salt).map(|h| h.to_string()))
        .map_err(|e| match e {
            Error::Password => PasswordHashError::Password,
            other => PasswordHashError::Other(other.to_string()),
        })
}

/// Holds `password` against the encoded hash `hash` (`PasswordHash::new` of
/// password-hash, then `Argon2::verify_password`). Believed: the outcome is a
/// function of the two arguments.
#[verifier::external_body]
fn argon2_verify(hash: &str, password: &[u8]) -> (r: Option<bool>)
    ensures
        r == argon2_check(hash@, password@),
{
    match PasswordHash::new(hash) {
        Ok(parsed) => Some(Argon2::default().verify_password(password, &parsed).is_ok()),
        Err(_) => None,
    }
}

/// The standard base64 text of `bytes`, with padding, as the `base64` crate
/// writes it.
pub uninterp spec fn base64_text(bytes: Seq<u8>) -> Seq<char>;

/// Encodes `bytes` in base64 (`base64::encode`). Believed: the text is a
/// function of the bytes. Inputs whose encoded length does not fit in
/// `usize` are kept out, because the encoder gives up on them.
#[verifier::external_body]
pub(crate) fn base64_encode(bytes: &[u8]) -> (text: String)
    requires
        bytes@.len() / 3 * 4 + 4 <= usize::MAX,
    ensures
        text@ == base64_text(bytes@),
{
    base64::encode(bytes)
}

/// `size` bytes from the operating system's secure random generator.
pub fn random_data(size: usize) -> (key: Vec<u8>)
    ensures
        key@.len() == size,
{
    let mut key: Vec<u8> = vec![0u8; size];
    fill_random(&mut key);
    key
}

/// Hashes a password with Argon2id under a fresh random salt. The encoded
/// hash names the algorithm, its parameters and the salt, so that checking it
/// needs nothing else.
pub fn hash_password(password: &[u8]) -> (r: Result<String, PasswordHashError>)
    ensures
        exists|salt: Seq<char>| hashed(r) == #[trigger] argon2_hash_of(password@, salt),
        r matches Ok(hash) ==> password_matches(hash@, password@),
{
    let salt = fresh_salt();
    argon2_hash(password, salt.as_str())
}

/// Checks a password against an encoded hash. A text that cannot be read as
/// an encoded hash verifies no password.
pub fn verify_password(hash: &str, password: &[u8]) -> (ok: bool)
    ensures
        ok == password_matches(hash@, password@),
{
    match argon2_verify(hash, password) {
        Some(ok) => ok,
        None => false,
    }
}

/// A new random stream key.
pub fn gen_stream_key() -> (key: String)
    ensures
        is_stream_key(key@),
{
    let short = random_alphanumeric(KEY_SHORT_RUN);
    let long = random_alphanumeric(KEY_LONG_RUN);
    let mut key = String::from_str("stream_");
    key.append(short.as_str());
    key.append("_");
    key.append(long.as_str());
    assert(key@ == stream_key_of(short@, long@));
    key
}

} // verus!
