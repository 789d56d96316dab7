//! The operations of the service, each as a decision over the credential
//! store: admission, registration, login and logout, listing and updating
//! accounts.
//!
//! Where an operation needs a random value or a password hash, one function
//! takes it as an argument and says exactly what happens for each value of it,
//! and a second one draws the value and calls the first.

use vstd::prelude::*;
use vstd::string::*;
use vstd::utf8::encode_utf8;
use crate::admission::{
    handle_admission, requested_key, stream_key, url_with_path, verdict, with_path, URL_LIMIT,
};
use crate::auth::{grants, IS_ADMIN};
use crate::crypto::{base64_encode, base64_text};
use crate::db::{account_named, account_with_key, session_owner, Store, StoreView};
use crate::errors::{OMError, OMErrorView};
use crate::objects::{
    denial, sendable, Admission, AdmissionResponse, AdmissionVerdict, SendableUser,
    SendableUserView, StreamResp, StreamRespView, Streams, User, UserView,
};

pub mod laws;
pub mod profile;
pub mod signin;
pub mod signup;

pub use crate::routes::profile::{
    apply_changes, authorize_update, choose_target, password_change, plan_update, update_user,
    update_user_with, UpdatePlan,
};
pub use crate::routes::signin::{check_credentials, login, login_with, logout};
pub use crate::routes::signup::{check_registration, new_account, register, register_with};

verus! {

/// Mathematical value of the outcome of an operation that returns nothing.
pub open spec fn outcome(r: Result<(), OMError>) -> Result<(), OMErrorView> {
    match r {
        Ok(()) => Ok(()),
        Err(e) => Err(e@),
    }
}

/// The answer to the admission request at `url`, given what the store holds:
/// the verdict on the owner of the stream key that the URL presents.
pub open spec fn admitted(store: StoreView, url: Seq<char>) -> AdmissionVerdict {
    match requested_key(url) {
        Some(key) => verdict(url, account_with_key(store.users, key)),
        None => denial(),
    }
}

/// Answers the admission request of the streaming engine.
pub fn admission(db: &Store, adm: &Admission) -> (answer: AdmissionResponse)
    ensures
        answer@ == admitted(db@, adm@),
{
    match stream_key(adm) {
        Some(key) => {
            let owner = db.find_by_key(key.as_str());
            handle_admission(adm, owner.as_ref())
        },
        None => AdmissionResponse::deny(),
    }
}

/// Mathematical value of a cookie value that may be absent.
pub open spec fn presented(cookie: Option<&str>) -> Option<Seq<char>> {
    match cookie {
        Some(token) => Some(token@),
        None => None,
    }
}

/// The account that a request with the session cookie `cookie` speaks for.
pub open spec fn requester(store: StoreView, cookie: Option<Seq<char>>) -> Option<UserView> {
    match cookie {
        Some(token) => session_owner(store, token),
        None => None,
    }
}

/// The account that is logged in, as the frontend may see it.
pub fn user(db: &Store, cookie: Option<&str>) -> (r: Result<SendableUser, OMError>)
    ensures
        match requester(db@, presented(cookie)) {
            Some(account) => r matches Ok(sent) && sent@ == sendable(account),
            None => r matches Err(e) && e@ == OMErrorView::InvalidSession,
        },
{
    let user = User::from_req(db, cookie)?;
    Ok(SendableUser::from(user))
}

/// What an administrator sees of an account in the list of all accounts:
/// what the frontend may see of it, but not the stream key.
pub open spec fn listed(user: UserView) -> SendableUserView {
    sendable(UserView { stream_key: Seq::empty(), ..user })
}

/// The account `user` as the list of all accounts shows it.
pub fn listing(user: &User) -> (sent: SendableUser)
    ensures
        sent@ == listed(user@),
{
    let mut shown = user.clone();
    shown.stream_key = String::new();
    SendableUser::from(shown)
}

/// All accounts of the store, for administrators only.
pub fn list_users(db: &Store, cookie: Option<&str>) -> (r: Result<Vec<SendableUser>, OMError>)
    ensures
        match requester(db@, presented(cookie)) {
            None => r matches Err(e) && e@ == OMErrorView::InvalidSession,
            Some(account) => if !grants(account.permissions, IS_ADMIN@) {
                r matches Err(e) && e@ == OMErrorView::NoPermission
            } else {
                &&& r matches Ok(list)
                &&& list@.len() == db@.users.len()
                &&& forall|i: int|
                    0 <= i < list@.len() ==> (#[trigger] list@[i])@ == listed(db@.users[i])
            },
        },
{
    let logged_user = User::from_req(db, cookie)?;
    if !logged_user.is_admin() {
        return Err(OMError::NoPermission);
    }
    let users = db.list_users();
    let mut list: Vec<SendableUser> = Vec::new();
    let mut i: usize = 0;
    while i < users.len()
        invariant
            i <= users.len(),
            list@.len() == i,
            forall|j: int| 0 <= j < i ==> (#[trigger] list@[j])@ == listed(users@[j]@),
        decreases users.len() - i,
    {
        list.push(listing(&users[i]));
        i += 1;
    }
    assert forall|i: int| 0 <= i < list@.len() implies (#[trigger] list@[i])@ == listed(
        db@.users[i],
    ) by {
        assert(db@.users[i] == users@[i]@);
    }
    Ok(list)
}

/// What the frontend learns about the stream of `user`.
pub open spec fn stream_of(user: UserView) -> StreamRespView {
    StreamRespView {
        username: user.username,
        display_name: user.display_name,
        title: user.stream_title,
    }
}

/// The streams that are shown for the stream names `names`: one for each
/// name that an account is registered under, in the order of the names.
pub open spec fn live_streams(users: Seq<UserView>, names: Seq<Seq<char>>) -> Seq<StreamRespView>
    decreases names.len(),
{
    if names.len() == 0 {
        Seq::empty()
    } else {
        let front = live_streams(users, names.drop_last());
        match account_named(users, names.last()) {
            Some(user) => front.push(stream_of(user)),
            None => front,
        }
    }
}

/// The values of a run of stream answers.
pub open spec fn shown_streams(list: Seq<StreamResp>) -> Seq<StreamRespView> {
    list.map_values(|s: StreamResp| s@)
}

/// What the frontend learns about the stream of `user`.
pub fn stream_resp(user: User) -> (resp: StreamResp)
    ensures
        resp@ == stream_of(user@),
{
    StreamResp { username: user.username, display_name: user.display_name, title: user.stream_title }
}

/// The streams to show, given the names of the streams that the streaming
/// engine currently carries.
pub fn streams(db: &Store, live: &Streams) -> (list: Vec<StreamResp>)
    ensures
        shown_streams(list@) == live_streams(db@.users, live.response.deep_view()),
{
    let ghost names = live.response.deep_view();
    let mut list: Vec<StreamResp> = Vec::new();
    let mut i: usize = 0;
    while i < live.response.len()
        invariant
            i <= live.response.len(),
            names == live.response.deep_view(),
            shown_streams(list@) == live_streams(db@.users, names.take(i as int)),
        decreases live.response.len() - i,
    {
        proof {
            assert(names.take(i + 1).drop_last() =~= names.take(i as int));
            assert(names.take(i + 1).last() == live.response@[i as int]@);
        }
        let ghost before = shown_streams(list@);
        match User::from_name(live.response[i].as_str(), db) {
            Some(user) => {
                let resp = stream_resp(user);
                list.push(resp);
                assert(shown_streams(list@) =~= before.push(resp@));
            },
            None => {},
        }
        i += 1;
    }
    assert(names.take(i as int) =~= names);
    list
}

/// The path under which the streaming engine lists its streams.
pub const STREAMS_PATH: &'static str = "v1/vhosts/default/apps/stream/streams";

/// The URL under which the streaming engine at `ome_url` lists its streams:
/// `ome_url` with the path of the list. `None` if `ome_url` is no URL, or one
/// too long to rewrite.
pub fn streams_url(ome_url: &str) -> (url: Option<String>)
    ensures
        url.deep_view() == (if ome_url@.len() <= URL_LIMIT && STREAMS_PATH@.len() <= URL_LIMIT {
            url_with_path(ome_url@, STREAMS_PATH@)
        } else {
            None
        }),
{
    if ome_url.unicode_len() > URL_LIMIT || STREAMS_PATH.unicode_len() > URL_LIMIT {
        return None;
    }
    with_path(ome_url, STREAMS_PATH)
}

/// The value of the authorization header that presents `access_token` to
/// the streaming engine: the word `Basic` and the token in base64. `None` for
/// a token too long to encode.
pub fn basic_authorization(access_token: &str) -> (header: Option<String>)
    ensures
        header.deep_view() == (if encode_utf8(access_token@).len() / 3 * 4 + 4 <= usize::MAX {
            Some("Basic "@ + base64_text(encode_utf8(access_token@)))
        } else {
            None
        }),
{
    let bytes = access_token.as_bytes();
    if bytes.len() / 3 > (usize::MAX - 4) / 4 {
        return None;
    }
    let mut header = String::from_str("Basic ");
    header.append(base64_encode(bytes).as_str());
    Some(header)
}

} // verus!
