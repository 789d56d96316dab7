//! Gatekeeper for a media-streaming engine: admission decisions for incoming
//! streams and the account and session layer that issues stream keys.

use vstd::prelude::*;
use vstd::string::*;

pub mod admission;
pub mod auth;
pub mod crypto;
pub mod db;
pub mod errors;
pub mod objects;
pub mod queries;
pub mod routes;
pub mod sealed;
pub mod session;
pub mod text;

verus! {

/// Shortest username that can be registered, in characters.
pub const USERNAME_MIN_LEN: usize = 4;

/// Longest username that can be registered, in characters.
pub const USERNAME_MAX_LEN: usize = 25;

/// A character that may occur in a username: an ASCII letter, an ASCII digit
/// or an underscore.
pub open spec fn is_username_char(c: char) -> bool {
    ||| 'a' <= c <= 'z'
    ||| 'A' <= c <= 'Z'
    ||| '0' <= c <= '9'
    ||| c == '_'
}

/// A valid username is between 4 and 25 characters long and holds nothing
/// but ASCII letters, ASCII digits and underscores.
pub open spec fn valid_username(name: Seq<char>) -> bool {
    &&& USERNAME_MIN_LEN <= name.len() <= USERNAME_MAX_LEN
    &&& forall|i: int| 0 <= i < name.len() ==> is_username_char(#[trigger] name[i])
}

fn username_char(c: char) -> (ok: bool)
    ensures
        ok == is_username_char(c),
{
    ('a' <= c && c <= 'z') || ('A' <= c && c <= 'Z') || ('0' <= c && c <= '9') || c == '_'
}

/// Decides whether `name` may be registered as a username.
pub fn is_valid_username(name: &str) -> (ok: bool)
    ensures
        ok == valid_username(name@),
{
    let len: usize = name.unicode_len();
    if len < USERNAME_MIN_LEN || len > USERNAME_MAX_LEN {
        return false;
    }
    let mut i: usize = 0;
    while i < len
        invariant
            len == name@.len(),
            i <= len,
            forall|j: int| 0 <= j < i ==> is_username_char(#[trigger] name@[j]),
        decreases len - i,
    {
        if !username_char(name.get_char(i)) {
            return false;
        }
        i += 1;
    }
    true
}

} // verus!
