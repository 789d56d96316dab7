//! Login sessions: the token that stands for a login and the cookie that
//! carries it.
//!
//! A session token is drawn at random and kept in the credential store with
//! its owner; it is valid for as long as the store keeps it. The cookie that
//! carries it lives fourteen days from issuance.

use vstd::prelude::*;
use vstd::string::*;
use crate::crypto::{base64_encode, base64_text, random_data};

verus! {

/// The name of the cookie that carries the session token.
pub const SESSION_COOKIE: &'static str = "om_session";

/// Number of random bytes in a session token.
pub const TOKEN_BYTES: usize = 64;

/// Lifetime of the session cookie in seconds: fourteen days.
pub const SESSION_TTL: u64 = 1_209_600;

/// Which requests from other sites carry a cookie.
#[derive(Debug, Clone, Copy, PartialEq, Eq, Structural)]
pub enum SameSite {
    /// None but those of the site itself.
    Strict,
    /// Only top-level navigation.
    Lax,
    /// All.
    Unrestricted,
}

/// The cookie that hands a session token to the client, with the attributes
/// that protect it.
#[derive(Debug)]
pub struct SessionCookie {
    /// Name of the cookie.
    pub name: String,
    /// The session token; empty in a cookie that removes the session.
    pub value: String,
    /// The paths that the cookie is sent to.
    pub path: String,
    /// Whether the cookie is hidden from scripts.
    pub http_only: bool,
    /// Whether the cookie is sent over secure transport only.
    pub secure: bool,
    /// Which requests from other sites carry the cookie.
    pub same_site: Option<SameSite>,
    /// When the cookie expires, in seconds since the Unix epoch, if at all.
    pub expires_at: Option<u64>,
}

/// Mathematical value of a [`SessionCookie`].
pub struct SessionCookieView {
    pub name: Seq<char>,
    pub value: Seq<char>,
    pub path: Seq<char>,
    pub http_only: bool,
    pub secure: bool,
    pub same_site: Option<SameSite>,
    pub expires_at: Option<u64>,
}

impl View for SessionCookie {
    type V = SessionCookieView;

    open spec fn view(&self) -> SessionCookieView {
        SessionCookieView {
            name: self.name@,
            value: self.value@,
            path: self.path@,
            http_only: self.http_only,
            secure: self.secure,
            same_site: self.same_site,
            expires_at: self.expires_at,
        }
    }
}

/// A text is a session token if it is the base64 text of sixty-four bytes.
pub open spec fn is_session_token(token: Seq<char>) -> bool {
    exists|bytes: Seq<u8>| bytes.len() == TOKEN_BYTES && token == #[trigger] base64_text(bytes)
}

/// When a cookie issued at `now` expires: fourteen days later, or at the end
/// of time if that comes first.
pub open spec fn expiry(now: u64) -> u64 {
    if now + SESSION_TTL <= u64::MAX {
        (now + SESSION_TTL) as u64
    } else {
        u64::MAX
    }
}

/// The cookie that carries `token` when issued at `now`: for the whole
/// service, hidden from scripts, over secure transport only, from other sites
/// only on top-level navigation, for fourteen days.
pub open spec fn issued_cookie(token: Seq<char>, now: u64) -> SessionCookieView {
    SessionCookieView {
        name: SESSION_COOKIE@,
        value: token,
        path: "/"@,
        http_only: true,
        secure: true,
        same_site: Some(SameSite::Lax),
        expires_at: Some(expiry(now)),
    }
}

/// The cookie that takes the session cookie away from the client.
pub open spec fn removal_cookie() -> SessionCookieView {
    SessionCookieView {
        name: SESSION_COOKIE@,
        value: ""@,
        path: "/"@,
        http_only: false,
        secure: false,
        same_site: None,
        expires_at: None,
    }
}

/// A new random session token.
pub fn new_session_token() -> (token: String)
    ensures
        is_session_token(token@),
{
    let bytes = random_data(TOKEN_BYTES);
    base64_encode(bytes.as_slice())
}

/// The cookie that hands `token` to the client at the time `now`, in seconds
/// since the Unix epoch.
pub fn session_cookie(token: String, now: u64) -> (cookie: SessionCookie)
    ensures
        cookie@ == issued_cookie(token@, now),
{
    SessionCookie {
        name: String::from_str(SESSION_COOKIE),
        value: token,
        path: String::from_str("/"),
        http_only: true,
        secure: true,
        same_site: Some(SameSite::Lax),
        expires_at: Some(now.saturating_add(SESSION_TTL)),
    }
}

/// The cookie that takes the session cookie away from the client.
pub fn session_removal() -> (cookie: SessionCookie)
    ensures
        cookie@ == removal_cookie(),
{
    SessionCookie {
        name: String::from_str(SESSION_COOKIE),
        value: String::from_str(""),
        path: String::from_str("/"),
        http_only: false,
        secure: false,
        same_site: None,
        expires_at: None,
    }
}

} // verus!
