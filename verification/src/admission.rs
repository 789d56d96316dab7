//! The admission decision: may the stream that asks for entry be published,
//! and under which URL.
//!
//! The streaming engine sends the URL that a publisher connected to. The last
//! segment of its path is the stream key. A key that belongs to an account
//! with the capability to stream is answered with the same URL, the key
//! replaced by the account's username; everything else is refused, and every
//! refusal looks the same.

use url::Url;
use vstd::prelude::*;
use vstd::string::*;
use crate::auth::{grants, CAN_STREAM};
use crate::crypto::{is_alphanumeric, is_stream_key, lemma_stream_key_shape};
use crate::valid_username;
use crate::objects::{
    denial, permit, Admission, AdmissionResponse, AdmissionVerdict, User, UserView,
};
use crate::text::{
    ends_with, join_path, joined, lemma_joined_ends_with_last, lemma_joined_hides, occurs_in,
};

verus! {

/// The longest URL, and the longest path, in characters, that is handed to
/// the URL parser for rewriting. The parser addresses a URL with 32 bits;
/// this bound keeps every rewritten URL far inside them.
pub const URL_LIMIT: usize = 0x0100_0000;

/// The segments of the path of `url`, as the `url` crate parses it: `None`
/// if the text is no URL or a URL without a path of segments.
pub uninterp spec fn url_path_segments(url: Seq<char>) -> Option<Seq<Seq<char>>>;

/// The text of `url` after the `url` crate has parsed it and replaced its
/// path by `path`: `None` if the text is no URL.
pub uninterp spec fn url_with_path(url: Seq<char>, path: Seq<char>) -> Option<Seq<char>>;

/// Parses `url` and splits its path into segments (`Url::parse` and
/// `Url::path_segments` of url). Believed: the outcome is a function of the
/// text.
#[verifier::external_body]
fn path_segments(url: &str) -> (segments: Option<Vec<String>>)
    ensures
        segments.deep_view() == url_path_segments(url@),
{
    let parsed = Url::parse(url).ok()?;
    let segments = parsed.path_segments()?;
    Some(segments.map(String::from).collect())
}

/// Parses `url`, replaces its path by `path` and writes it out again
/// (`Url::parse` and `Url::set_path` of url). Believed: the outcome is a
/// function of the two texts. Texts beyond the limit are kept out because the
/// parser gives up on a URL whose length does not fit in 32 bits.
#[verifier::external_body]
pub(crate) fn with_path(url: &str, path: &str) -> (rewritten: Option<String>)
    requires
        url@.len() <= URL_LIMIT,
        path@.len() <= URL_LIMIT,
    ensures
        rewritten.deep_view() == url_with_path(url@, path@),
{
    let mut parsed = Url::parse(url).ok()?;
    parsed.set_path(path);
    Some(parsed.into())
}

/// The stream key among the segments of a path: the last one. A path
/// without segments presents the empty key.
pub open spec fn presented_key(segments: Seq<Seq<char>>) -> Seq<char> {
    if segments.len() > 0 {
        segments.last()
    } else {
        Seq::empty()
    }
}

/// The segments in front of the stream key.
pub open spec fn route_prefix(segments: Seq<Seq<char>>) -> Seq<Seq<char>> {
    if segments.len() > 0 {
        segments.drop_last()
    } else {
        segments
    }
}

/// The path that takes the place of the requested one: the route as it was,
/// with `username` where the stream key stood.
pub open spec fn rewritten_path(segments: Seq<Seq<char>>, username: Seq<char>) -> Seq<char> {
    joined(route_prefix(segments).push(username), '/')
}

/// The stream key that the request at `url` presents, if `url` has a path to
/// take it from.
pub open spec fn requested_key(url: Seq<char>) -> Option<Seq<char>> {
    match url_path_segments(url) {
        Some(segments) => Some(presented_key(segments)),
        None => None,
    }
}

/// The answer to the request at `url`, given the account that the presented
/// stream key belongs to, if any.
///
/// The stream is allowed exactly if the URL has a path, the key has an owner,
/// the owner may stream, and the URL can be written out with the new path.
pub open spec fn verdict(url: Seq<char>, owner: Option<UserView>) -> AdmissionVerdict {
    match (url_path_segments(url), owner) {
        (Some(segments), Some(user)) => {
            let path = rewritten_path(segments, user.username);
            if grants(user.permissions, CAN_STREAM@) && url.len() <= URL_LIMIT && path.len()
                <= URL_LIMIT {
                match url_with_path(url, path) {
                    Some(new_url) => permit(new_url),
                    None => denial(),
                }
            } else {
                denial()
            }
        },
        _ => denial(),
    }
}

/// Mathematical value of an account that may be absent.
pub open spec fn account(user: Option<&User>) -> Option<UserView> {
    match user {
        Some(u) => Some(u@),
        None => None,
    }
}

/// The stream key that the request presents: the last segment of the path of
/// its URL. `None` if the URL has no path to take it from; such a request is
/// refused without a lookup.
pub fn stream_key(adm: &Admission) -> (key: Option<String>)
    ensures
        key.deep_view() == requested_key(adm@),
{
    match path_segments(adm.borrow_url().as_str()) {
        Some(mut segments) => {
            let ghost all = segments.deep_view();
            match segments.pop() {
                Some(last) => {
                    assert(last@ == all.last());
                    Some(last)
                },
                None => Some(String::new()),
            }
        },
        None => None,
    }
}

/// Decides whether the incoming stream may be published.
///
/// `owner` is the account that the credential store holds for the stream key
/// of the request, `None` if it holds none or could not be asked. The answer
/// allows the stream only if there is such an account and it may stream, and
/// then sends it to the URL of the request with the account's username in
/// place of the key.
pub fn handle_admission(adm: &Admission, owner: Option<&User>) -> (answer: AdmissionResponse)
    ensures
        answer@ == verdict(adm@, account(owner)),
{
    let url = adm.borrow_url().as_str();
    let mut path = match path_segments(url) {
        Some(segments) => segments,
        None => {
            return AdmissionResponse::deny();
        },
    };
    let user = match owner {
        Some(user) => user,
        None => {
            return AdmissionResponse::deny();
        },
    };
    if !user.has_permission(CAN_STREAM) {
        return AdmissionResponse::deny();
    }
    let ghost segments = path.deep_view();
    let _ = path.pop();
    path.push(user.username.clone());
    assert(path.deep_view() =~= route_prefix(segments).push(user@.username));
    let new_path = join_path(&path);
    if url.unicode_len() > URL_LIMIT || new_path.as_str().unicode_len() > URL_LIMIT {
        return AdmissionResponse::deny();
    }
    match with_path(url, new_path.as_str()) {
        Some(new_url) => AdmissionResponse::allow(new_url),
        None => AdmissionResponse::deny(),
    }
}

/// Every refusal is the same answer, whatever its reason: a URL without a
/// path, a key without an owner, an owner without the capability to stream.
pub proof fn lemma_refusals_look_alike(
    url: Seq<char>,
    owner: Option<UserView>,
    other_url: Seq<char>,
    other_owner: Option<UserView>,
)
    requires
        !verdict(url, owner).allowed,
        !verdict(other_url, other_owner).allowed,
    ensures
        verdict(url, owner) == verdict(other_url, other_owner),
        verdict(url, owner) == denial(),
{
}

/// A key without an owner, or with an owner that lacks the capability to
/// stream, is refused.
pub proof fn lemma_unauthorized_is_refused(url: Seq<char>, owner: Option<UserView>)
    requires
        owner matches Some(user) ==> !grants(user.permissions, CAN_STREAM@),
    ensures
        verdict(url, owner) == denial(),
{
}

/// The owner of the presented key, if it may stream, is let in under its
/// username: the stream is allowed whenever the URL can be written out with
/// the new path, the new URL is the old one with that path, and the path ends
/// with the username.
pub proof fn lemma_authorized_is_admitted(url: Seq<char>, segments: Seq<Seq<char>>, user: UserView)
    requires
        url_path_segments(url) == Some(segments),
        grants(user.permissions, CAN_STREAM@),
        url.len() <= URL_LIMIT,
        rewritten_path(segments, user.username).len() <= URL_LIMIT,
        url_with_path(url, rewritten_path(segments, user.username)) is Some,
    ensures
        verdict(url, Some(user)).allowed,
        verdict(url, Some(user)).new_url == url_with_path(
            url,
            rewritten_path(segments, user.username),
        ),
        ends_with(rewritten_path(segments, user.username), user.username),
{
    lemma_joined_ends_with_last(route_prefix(segments).push(user.username), '/');
}

/// The stream key does not leak: the path that replaces the requested one
/// does not hold the key, provided that the key stands nowhere in the route
/// in front of it nor in the username, and holds no slash.
pub proof fn lemma_rewritten_path_hides_key(segments: Seq<Seq<char>>, username: Seq<char>)
    requires
        segments.len() > 0,
        !presented_key(segments).contains('/'),
        !occurs_in(presented_key(segments), username),
        forall|i: int|
            0 <= i < segments.len() - 1 ==> !occurs_in(presented_key(segments), #[trigger] segments[i]),
    ensures
        !occurs_in(presented_key(segments), rewritten_path(segments, username)),
{
    let parts = route_prefix(segments).push(username);
    assert forall|i: int| 0 <= i < parts.len() implies !occurs_in(
        presented_key(segments),
        #[trigger] parts[i],
    ) by {
        if i < segments.len() - 1 {
            assert(parts[i] == segments[i]);
        }
    }
    lemma_joined_hides(parts, '/', presented_key(segments));
}

/// The stream keys that this service issues do not leak: where the
/// presented key is one of them, the username is a valid one, and the key
/// does not stand in the route in front of it, the path that replaces the
/// requested one does not hold the key.
pub proof fn lemma_rewritten_path_hides_stream_key(segments: Seq<Seq<char>>, username: Seq<char>)
    requires
        segments.len() > 0,
        is_stream_key(presented_key(segments)),
        valid_username(username),
        forall|i: int|
            0 <= i < segments.len() - 1 ==> !occurs_in(
                presented_key(segments),
                #[trigger] segments[i],
            ),
    ensures
        !occurs_in(presented_key(segments), rewritten_path(segments, username)),
{
    let key = presented_key(segments);
    lemma_stream_key_shape(key);
    if key.contains('/') {
        let i = choose|i: int| 0 <= i < key.len() && key[i] == '/';
        assert(is_alphanumeric(key[i]) || key[i] == '_');
    }
    lemma_rewritten_path_hides_key(segments, username);
}

} // verus!
