//! Logging in and out: opening a session with name and password, and closing
//! it again.

use vstd::prelude::*;
use vstd::string::*;
use crate::crypto::{password_bytes, password_matches, verify_password};
use crate::db::{account_named, session_with, without_session, Store, StoreView, TOKEN_IN_USE};
use crate::errors::{OMError, OMErrorView};
use crate::objects::{SessionView, User, UserLogin};
use crate::routes::{presented, requester};
use crate::session::{
    is_session_token, issued_cookie, new_session_token, removal_cookie, session_cookie,
    session_removal, SessionCookie, SessionCookieView,
};

verus! {

/// Mathematical value of the outcome of an operation that may hand out a
/// cookie.
pub open spec fn cookie_outcome(r: Result<Option<SessionCookie>, OMError>) -> Result<
    Option<SessionCookieView>,
    OMErrorView,
> {
    match r {
        Ok(Some(cookie)) => Ok(Some(cookie@)),
        Ok(None) => Ok(None),
        Err(e) => Err(e@),
    }
}

/// What a login does to the store and returns, given the session token drawn
/// for it and the time.
///
/// A request that already carries a valid session gets no new one. Otherwise
/// the account must exist and the password must match its hash; then a
/// session for the account is opened under the token, and the cookie that
/// carries the token is handed out. Whenever the login fails the store stays
/// as it is.
pub open spec fn login_outcome(
    store: StoreView,
    cookie: Option<Seq<char>>,
    username: Seq<char>,
    password: Seq<char>,
    token: Seq<char>,
    now: u64,
) -> (StoreView, Result<Option<SessionCookieView>, OMErrorView>) {
    if requester(store, cookie) is Some {
        (store, Ok(None))
    } else {
        match account_named(store.users, username) {
            None => (store, Err(OMErrorView::NotFound(username))),
            Some(user) => if !password_matches(user.password, password_bytes(password)) {
                (store, Err(OMErrorView::InvalidPassword))
            } else if session_with(store.sessions, token) is Some {
                (store, Err(OMErrorView::SqlxError(TOKEN_IN_USE@)))
            } else {
                (
                    StoreView {
                        users: store.users,
                        sessions: store.sessions.push(
                            SessionView { session: token, user_id: user.username, created_at: now },
                        ),
                    },
                    Ok(Some(issued_cookie(token, now))),
                )
            },
        }
    }
}

/// Decides whether `creds` log in to `account`, the account that the store
/// holds under `creds.username`, if any.
pub fn check_credentials(account: Option<User>, creds: &UserLogin) -> (r: Result<User, OMError>)
    ensures
        match account {
            None => r matches Err(e) && e@ == OMErrorView::NotFound(creds.username@),
            Some(user) => if password_matches(user@.password, password_bytes(creds.password@)) {
                r == Ok::<User, OMError>(user)
            } else {
                r matches Err(e) && e@ == OMErrorView::InvalidPassword
            },
        },
{
    match account {
        None => Err(OMError::NotFound(creds.username.clone())),
        Some(user) => if verify_password(user.password.as_str(), creds.password.as_str().as_bytes()) {
            Ok(user)
        } else {
            Err(OMError::InvalidPassword)
        },
    }
}

/// Logs in with `creds`, given the session token drawn for the login and the
/// time `now` in seconds since the Unix epoch. `cookie` is the value of the
/// session cookie of the request, if it carries one.
pub fn login_with(
    db: &mut Store,
    cookie: Option<&str>,
    creds: &UserLogin,
    token: String,
    now: u64,
) -> (r: Result<Option<SessionCookie>, OMError>)
    ensures
        (final(db)@, cookie_outcome(r)) == login_outcome(
            old(db)@,
            presented(cookie),
            creds.username@,
            creds.password@,
            token@,
            now,
        ),
{
    if let Some(old_token) = cookie {
        if User::from_session(old_token, db).is_some() {
            return Ok(None);
        }
    }
    let user = check_credentials(User::from_name(creds.username.as_str(), db), creds)?;
    db.insert_session(token.clone(), user.username, now)?;
    Ok(Some(session_cookie(token, now)))
}

/// Logs in with `creds`: opens a session under a fresh random token and
/// hands out the cookie that carries it.
pub fn login(db: &mut Store, cookie: Option<&str>, creds: &UserLogin, now: u64) -> (r: Result<
    Option<SessionCookie>,
    OMError,
>)
    ensures
        exists|token: Seq<char>|
            {
                &&& is_session_token(token)
                &&& (final(db)@, cookie_outcome(r)) == #[trigger] login_outcome(
                    old(db)@,
                    presented(cookie),
                    creds.username@,
                    creds.password@,
                    token,
                    now,
                )
            },
{
    let token = new_session_token();
    let ghost t = token@;
    let r = login_with(db, cookie, creds, token, now);
    assert((db@, cookie_outcome(r)) == login_outcome(
        old(db)@,
        presented(cookie),
        creds.username@,
        creds.password@,
        t,
        now,
    ));
    r
}

/// Logs out: closes the session that the cookie of the request carries and
/// hands out the cookie that removes it. A request without the cookie has
/// nothing to close. Logging out never fails, whether or not the session is
/// open.
pub fn logout(db: &mut Store, cookie: Option<&str>) -> (r: Result<Option<SessionCookie>, OMError>)
    ensures
        final(db)@.users == old(db)@.users,
        match cookie {
            Some(token) => final(db)@.sessions == without_session(old(db)@.sessions, token@)
                && cookie_outcome(r) == Ok::<Option<SessionCookieView>, OMErrorView>(
                Some(removal_cookie()),
            ),
            None => final(db)@.sessions == old(db)@.sessions && cookie_outcome(r) == Ok::<
                Option<SessionCookieView>,
                OMErrorView,
            >(None),
        },
{
    match cookie {
        Some(token) => {
            db.delete_session(token);
            Ok(Some(session_removal()))
        },
        None => Ok(None),
    }
}

} // verus!
