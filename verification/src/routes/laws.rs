//! What holds of the operations of the service, whatever the store holds and
//! whatever is asked of it.

use vstd::prelude::*;
use crate::admission::{
    presented_key, requested_key, rewritten_path, route_prefix, url_path_segments, url_with_path,
    URL_LIMIT,
};
use crate::auth::{grants, CAN_STREAM, IS_ADMIN};
use crate::db::{
    account_named, account_with_key, consistent, lemma_account_is_found, lemma_first_wanted,
    lemma_found_is_wanted, lemma_no_session, lemma_none_wanted, lemma_without_session,
    lemma_without_session_keeps_tokens_apart, same_name, session_owner, session_with,
    without_session, ChangeView, StoreView,
};
use crate::errors::{OMErrorView, PasswordHashErrorView};
use crate::objects::{denial, UserUpdateView, UserView};
use crate::routes::{admitted, requester};
use crate::routes::profile::{
    applied_all, hashed_password, password_step, plan_of, update_outcome, update_target,
};
use crate::routes::signin::login_outcome;
use crate::routes::signup::registration;
use crate::session::{issued_cookie, SessionCookieView};
use crate::text::{ends_with, lemma_joined_ends_with_last};

verus! {

/// The owner of a stream key, if it may stream, is let in under its
/// username. Whenever the rewritten URL can be written out, the request that
/// presents the key of an account with the capability to stream is allowed,
/// the new URL is the old one with the rewritten path, and that path ends
/// with the username of the account.
pub proof fn lemma_key_owner_is_admitted(
    store: StoreView,
    at: int,
    url: Seq<char>,
    segments: Seq<Seq<char>>,
)
    requires
        consistent(store),
        0 <= at < store.users.len(),
        url_path_segments(url) == Some(segments),
        presented_key(segments) == store.users[at].stream_key,
        grants(store.users[at].permissions, CAN_STREAM@),
        url.len() <= URL_LIMIT,
        rewritten_path(segments, store.users[at].username).len() <= URL_LIMIT,
        url_with_path(url, rewritten_path(segments, store.users[at].username)) is Some,
    ensures
        admitted(store, url).allowed,
        admitted(store, url).new_url == url_with_path(
            url,
            rewritten_path(segments, store.users[at].username),
        ),
        ends_with(rewritten_path(segments, store.users[at].username), store.users[at].username),
{
    lemma_account_is_found(store, at);
    lemma_joined_ends_with_last(
        route_prefix(segments).push(store.users[at].username),
        '/',
    );
}

/// A stream key that no account owns, or whose owner lacks the capability
/// to stream, is refused, and the refusal is the same in both cases: the one
/// answer that every refusal is.
pub proof fn lemma_unknown_or_unauthorized_is_refused(store: StoreView, url: Seq<char>)
    requires
        requested_key(url) matches Some(key) ==> (account_with_key(store.users, key) matches Some(
            owner,
        ) ==> !grants(owner.permissions, CAN_STREAM@)),
    ensures
        admitted(store, url) == denial(),
{
}

/// The store after the session `token` was revoked.
pub open spec fn revoked(store: StoreView, token: Seq<char>) -> StoreView {
    StoreView { users: store.users, sessions: without_session(store.sessions, token) }
}

/// Revoking is idempotent: a revoked session speaks for nobody, revoking it
/// again changes nothing, and revoking a session that is not open changes
/// nothing either.
pub proof fn lemma_revoking_is_idempotent(store: StoreView, token: Seq<char>)
    ensures
        session_owner(revoked(store, token), token) is None,
        revoked(revoked(store, token), token) == revoked(store, token),
        session_with(store.sessions, token) is None ==> revoked(store, token) == store,
{
    lemma_without_session(store.sessions, token);
}

/// A login that succeeds opens a session for the account that logged in:
/// the token of the cookie that is handed out speaks for the account
/// registered under the name of the credentials.
pub proof fn lemma_login_opens_session(
    store: StoreView,
    cookie: Option<Seq<char>>,
    username: Seq<char>,
    password: Seq<char>,
    token: Seq<char>,
    now: u64,
)
    requires
        consistent(store),
        login_outcome(store, cookie, username, password, token, now).1 matches Ok(Some(_)),
    ensures
        login_outcome(store, cookie, username, password, token, now).1 == Ok::<
            Option<SessionCookieView>,
            OMErrorView,
        >(Some(issued_cookie(token, now))),
        account_named(store.users, username) is Some,
        session_owner(login_outcome(store, cookie, username, password, token, now).0, token)
            == account_named(store.users, username),
{
    let after = login_outcome(store, cookie, username, password, token, now).0;
    let at = lemma_found_is_wanted(store.users, |u: UserView| same_name(u.username, username));
    lemma_account_is_found(store, at);
    assert(after.sessions.drop_last() =~= store.sessions);
}

/// A name that was registered is taken, whatever the case of its letters:
/// after a registration that succeeded, registering the same name again
/// fails.
pub proof fn lemma_registered_name_is_taken(
    store: StoreView,
    username: Seq<char>,
    hash: Result<Seq<char>, PasswordHashErrorView>,
    key: Seq<char>,
    again: Seq<char>,
    other_hash: Result<Seq<char>, PasswordHashErrorView>,
    other_key: Seq<char>,
)
    requires
        registration(store, username, hash, key).1 is Ok,
        same_name(username, again),
    ensures
        registration(registration(store, username, hash, key).0, again, other_hash, other_key).1
            == Err::<(), OMErrorView>(OMErrorView::NameTaken),
{
    let after = registration(store, username, hash, key).0;
    assert(after.users.drop_last() =~= store.users);
}

/// Only an administrator updates another account: whoever names the account
/// to update without being one is refused, and nothing changes.
pub proof fn lemma_only_administrators_update_others(
    store: StoreView,
    cookie: Option<Seq<char>>,
    body: UserUpdateView,
    hash: Result<Seq<char>, PasswordHashErrorView>,
)
    requires
        requester(store, cookie) matches Some(performer) && !grants(
            performer.permissions,
            IS_ADMIN@,
        ),
        body.username is Some,
    ensures
        update_outcome(store, cookie, body, hash) == (
            store,
            Err::<(), OMErrorView>(OMErrorView::NoPermission),
        ),
{
}

/// Changes keep every account in its place, under its username and with its
/// stream key.
pub proof fn lemma_changes_keep_names(
    users: Seq<UserView>,
    username: Seq<char>,
    changes: Seq<ChangeView>,
)
    ensures
        applied_all(users, username, changes).len() == users.len(),
        forall|i: int|
            0 <= i < users.len() ==> (#[trigger] applied_all(users, username, changes)[i]).username
                == users[i].username && applied_all(users, username, changes)[i].stream_key
                == users[i].stream_key,
    decreases changes.len(),
{
    if changes.len() > 0 {
        lemma_changes_keep_names(users, username, changes.drop_last());
    }
}

/// What an administrator sets is what is found afterwards: after an update
/// in which an administrator sets the permissions of the account registered
/// under a name, and whose password change is not refused, the account found
/// under that name has those permissions.
pub proof fn lemma_administrator_sets_permissions(
    store: StoreView,
    cookie: Option<Seq<char>>,
    body: UserUpdateView,
    hash: Result<Seq<char>, PasswordHashErrorView>,
)
    requires
        requester(store, cookie) matches Some(performer) && grants(
            performer.permissions,
            IS_ADMIN@,
        ),
        body.username is Some,
        body.permissions is Some,
        account_named(store.users, body.username.unwrap()) matches Some(target) && password_step(
            requester(store, cookie).unwrap(),
            target,
            body,
        ) is Ok,
    ensures
        update_outcome(store, cookie, body, hash).1 is Ok,
        update_outcome(store, cookie, body, hash).0.sessions == store.sessions,
        account_named(update_outcome(store, cookie, body, hash).0.users, body.username.unwrap())
            matches Some(account) && account.permissions == body.permissions,
{
    let name = body.username.unwrap();
    let performer = requester(store, cookie).unwrap();
    let wanted = |u: UserView| same_name(u.username, name);
    let at = lemma_found_is_wanted(store.users, wanted);
    let target = store.users[at];
    let plan = plan_of(true, body, hashed_password(password_step(performer, target, body), hash));
    let changes = plan.0;
    let after = applied_all(store.users, target.username, changes);
    assert(update_outcome(store, cookie, body, hash).0.users == after);
    assert(changes.last() == ChangeView::Permissions(body.permissions.unwrap()));
    let before = applied_all(store.users, target.username, changes.drop_last());
    lemma_changes_keep_names(store.users, target.username, changes.drop_last());
    lemma_changes_keep_names(store.users, target.username, changes);
    assert(after[at].permissions == body.permissions);
    assert forall|j: int| 0 <= j < at implies !wanted(#[trigger] after[j]) by {
        assert(!wanted(store.users[j]));
    }
    lemma_first_wanted(after, wanted, at);
}

/// No operation breaks the store: after a registration, a login, an update
/// or a revocation, no two accounts share a name or a stream key and no two
/// sessions share a token, if that was so before. An update leaves every
/// username and every stream key as it was.
pub proof fn lemma_store_stays_consistent(
    store: StoreView,
    cookie: Option<Seq<char>>,
    username: Seq<char>,
    password: Seq<char>,
    hash: Result<Seq<char>, PasswordHashErrorView>,
    key: Seq<char>,
    token: Seq<char>,
    now: u64,
    body: UserUpdateView,
)
    requires
        consistent(store),
    ensures
        consistent(registration(store, username, hash, key).0),
        consistent(login_outcome(store, cookie, username, password, token, now).0),
        consistent(update_outcome(store, cookie, body, hash).0),
        consistent(revoked(store, token)),
        update_outcome(store, cookie, body, hash).0.users.len() == store.users.len(),
        forall|i: int|
            0 <= i < store.users.len() ==> (#[trigger] update_outcome(
                store,
                cookie,
                body,
                hash,
            ).0.users[i]).username == store.users[i].username && update_outcome(
                store,
                cookie,
                body,
                hash,
            ).0.users[i].stream_key == store.users[i].stream_key,
{
    let registered = registration(store, username, hash, key).0;
    if registered != store {
        lemma_none_wanted(store.users, |u: UserView| same_name(u.username, username));
        lemma_none_wanted(store.users, |u: UserView| u.stream_key == key);
        assert forall|i: int| 0 <= i < store.users.len() implies !same_name(
            (#[trigger] store.users[i]).username,
            username,
        ) && store.users[i].stream_key != key by {
            assert(!(|u: UserView| same_name(u.username, username))(store.users[i]));
            assert(!(|u: UserView| u.stream_key == key)(store.users[i]));
        }
    }
    let logged_in = login_outcome(store, cookie, username, password, token, now).0;
    if logged_in != store {
        lemma_no_session(store.sessions, token);
    }
    let after = update_outcome(store, cookie, body, hash).0;
    if after != store {
        let performer = requester(store, cookie).unwrap();
        let target = update_target(store.users, performer, body).unwrap();
        let plan = plan_of(
            grants(performer.permissions, IS_ADMIN@),
            body,
            hashed_password(password_step(performer, target, body), hash),
        );
        lemma_changes_keep_names(store.users, target.username, plan.0);
    }
    lemma_without_session_keeps_tokens_apart(store.sessions, token);
}

} // verus!
