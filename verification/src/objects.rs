//! The records that travel between the transport, the credential store and
//! the decisions of this library, each with its mathematical value.

use vstd::prelude::*;
use vstd::string::*;
use crate::auth::{grants, holds_capability, split_tokens, tokens, IS_ADMIN};

verus! {

/// A login session as the credential store keeps it.
#[derive(Debug)]
pub struct Session {
    /// Randomly generated session token.
    pub session: String,
    /// Username of the account that the session belongs to.
    pub user_id: String,
    /// Time of creation, in seconds since the Unix epoch (UTC).
    pub created_at: u64,
}

/// Mathematical value of a [`Session`].
pub struct SessionView {
    pub session: Seq<char>,
    pub user_id: Seq<char>,
    pub created_at: u64,
}

impl View for Session {
    type V = SessionView;

    open spec fn view(&self) -> SessionView {
        SessionView {
            session: self.session@,
            user_id: self.user_id@,
            created_at: self.created_at,
        }
    }
}

impl Clone for Session {
    fn clone(&self) -> (copy: Self)
        ensures
            copy@ == self@,
    {
        Session {
            session: self.session.clone(),
            user_id: self.user_id.clone(),
            created_at: self.created_at,
        }
    }
}

/// Answer to the streaming engine's admission request.
#[derive(Debug)]
pub struct AdmissionResponse {
    allowed: bool,
    new_url: Option<String>,
}

/// Mathematical value of an [`AdmissionResponse`].
pub struct AdmissionVerdict {
    /// Whether the stream may be published.
    pub allowed: bool,
    /// Where the engine publishes the stream instead of where it was sent.
    pub new_url: Option<Seq<char>>,
}

impl View for AdmissionResponse {
    type V = AdmissionVerdict;

    closed spec fn view(&self) -> AdmissionVerdict {
        AdmissionVerdict { allowed: self.allowed, new_url: self.new_url.deep_view() }
    }
}

/// The one value that every refusal has.
pub open spec fn denial() -> AdmissionVerdict {
    AdmissionVerdict { allowed: false, new_url: None }
}

/// The value of a permission to publish under `new_url`.
pub open spec fn permit(new_url: Seq<char>) -> AdmissionVerdict {
    AdmissionVerdict { allowed: true, new_url: Some(new_url) }
}

impl AdmissionResponse {
    /// An answer carries a new URL exactly when it allows the stream.
    #[verifier::type_invariant]
    spec fn well_formed(self) -> bool {
        self.allowed == self.new_url.is_some()
    }

    /// Allows the stream and sends it to `new_url`, which should not hold the
    /// stream key.
    pub fn allow(new_url: String) -> (answer: Self)
        ensures
            answer@ == permit(new_url@),
    {
        AdmissionResponse { allowed: true, new_url: Some(new_url) }
    }

    /// Refuses the stream.
    pub fn deny() -> (answer: Self)
        ensures
            answer@ == denial(),
    {
        AdmissionResponse { allowed: false, new_url: None }
    }

    /// Whether the stream may be published.
    pub fn allowed(&self) -> (yes: bool)
        ensures
            yes == self@.allowed,
    {
        self.allowed
    }

    /// The URL that the engine publishes the stream under, if it is allowed.
    pub fn new_url(&self) -> (url: Option<&String>)
        ensures
            url.deep_view() == self@.new_url,
            self@.allowed == url.is_some(),
    {
        proof {
            use_type_invariant(self);
        }
        self.new_url.as_ref()
    }
}

/// The admission request that the streaming engine sends. Only the URL
/// matters here: the stream key is the last segment of its path.
#[derive(Debug)]
pub struct Admission {
    request: AdmissionRequest,
}

/// The part of an [`Admission`] that holds the URL.
#[derive(Debug)]
struct AdmissionRequest {
    url: String,
}

impl View for Admission {
    type V = Seq<char>;

    /// The text of the requested URL.
    closed spec fn view(&self) -> Seq<char> {
        self.request.url@
    }
}

impl Admission {
    /// The request to publish a stream at `url`.
    pub fn new(url: String) -> (adm: Self)
        ensures
            adm@ == url@,
    {
        Admission { request: AdmissionRequest { url } }
    }

    /// The URL whose path ends in the stream key.
    pub fn borrow_url(&self) -> (url: &String)
        ensures
            url@ == self@,
    {
        &self.request.url
    }
}

/// An account as the credential store keeps it.
#[derive(Debug)]
pub struct User {
    /// Username, used for the URL rewrite.
    pub username: String,
    /// The name that the UI displays.
    pub display_name: String,
    /// Encoded password hash.
    pub password: String,
    /// Randomly generated stream key.
    pub stream_key: String,
    /// The capabilities granted to the account, as a delimited list.
    pub permissions: Option<String>,
    /// Title of the stream.
    pub stream_title: Option<String>,
}

/// Mathematical value of a [`User`].
pub struct UserView {
    pub username: Seq<char>,
    pub display_name: Seq<char>,
    pub password: Seq<char>,
    pub stream_key: Seq<char>,
    pub permissions: Option<Seq<char>>,
    pub stream_title: Option<Seq<char>>,
}

impl View for User {
    type V = UserView;

    open spec fn view(&self) -> UserView {
        UserView {
            username: self.username@,
            display_name: self.display_name@,
            password: self.password@,
            stream_key: self.stream_key@,
            permissions: self.permissions.deep_view(),
            stream_title: self.stream_title.deep_view(),
        }
    }
}

/// A copy of an optional text.
fn clone_text(text: &Option<String>) -> (copy: Option<String>)
    ensures
        copy.deep_view() == text.deep_view(),
{
    match text {
        Some(t) => Some(t.clone()),
        None => None,
    }
}

impl User {
    /// Whether the account holds the capability `permission`: its permission
    /// list names that very token, or names the administrator token.
    pub fn has_permission(&self, permission: &str) -> (yes: bool)
        ensures
            yes == grants(self@.permissions, permission@),
    {
        holds_capability(&self.permissions, permission)
    }

    /// The capability tokens of the account's permission list, in the order
    /// in which they stand. `None` for an account without a list.
    pub fn permission_vec(&self) -> (list: Option<Vec<String>>)
        ensures
            list.deep_view() == (match self@.permissions {
                Some(text) => Some(tokens(text)),
                None => None,
            }),
    {
        match &self.permissions {
            Some(text) => Some(split_tokens(text.as_str())),
            None => None,
        }
    }

    /// Whether the account is an administrator.
    pub fn is_admin(&self) -> (yes: bool)
        ensures
            yes == grants(self@.permissions, IS_ADMIN@),
    {
        self.has_permission(IS_ADMIN)
    }
}

impl Clone for User {
    fn clone(&self) -> (copy: Self)
        ensures
            copy@ == self@,
    {
        User {
            username: self.username.clone(),
            display_name: self.display_name.clone(),
            password: self.password.clone(),
            stream_key: self.stream_key.clone(),
            permissions: clone_text(&self.permissions),
            stream_title: clone_text(&self.stream_title),
        }
    }
}

/// A [`User`] without the password hash, fit to be sent to the frontend.
#[derive(Debug)]
pub struct SendableUser {
    /// URL-safe username, used for streaming.
    pub username: String,
    /// Name that the UI displays.
    pub display_name: String,
    /// Stream key, for display.
    pub stream_key: String,
    /// Optional stream title.
    pub stream_title: Option<String>,
    /// The capabilities granted to the account.
    pub permissions: Option<String>,
}

/// Mathematical value of a [`SendableUser`].
pub struct SendableUserView {
    pub username: Seq<char>,
    pub display_name: Seq<char>,
    pub stream_key: Seq<char>,
    pub stream_title: Option<Seq<char>>,
    pub permissions: Option<Seq<char>>,
}

impl View for SendableUser {
    type V = SendableUserView;

    open spec fn view(&self) -> SendableUserView {
        SendableUserView {
            username: self.username@,
            display_name: self.display_name@,
            stream_key: self.stream_key@,
            stream_title: self.stream_title.deep_view(),
            permissions: self.permissions.deep_view(),
        }
    }
}

/// What the frontend may see of an account: everything but the password.
pub open spec fn sendable(user: UserView) -> SendableUserView {
    SendableUserView {
        username: user.username,
        display_name: user.display_name,
        stream_key: user.stream_key,
        stream_title: user.stream_title,
        permissions: user.permissions,
    }
}

impl From<User> for SendableUser {
    fn from(user: User) -> (sent: SendableUser) {
        SendableUser {
            username: user.username,
            display_name: user.display_name,
            stream_key: user.stream_key,
            stream_title: user.stream_title,
            permissions: user.permissions,
        }
    }
}

impl vstd::std_specs::convert::FromSpecImpl<User> for SendableUser {
    open spec fn obeys_from_spec() -> bool {
        true
    }

    open spec fn from_spec(user: User) -> SendableUser {
        SendableUser {
            username: user.username,
            display_name: user.display_name,
            stream_key: user.stream_key,
            stream_title: user.stream_title,
            permissions: user.permissions,
        }
    }
}

/// Payload for logging in and registering.
#[derive(Debug)]
pub struct UserLogin {
    /// Username of the account.
    pub username: String,
    /// Password of the account.
    pub password: String,
}

/// The names of all streams that the streaming engine currently carries.
#[derive(Debug)]
pub struct Streams {
    /// The stream names.
    pub response: Vec<String>,
}

/// What the frontend learns about a running stream.
#[derive(Debug)]
pub struct StreamResp {
    /// Username of the streaming account, URL safe.
    pub username: String,
    /// Name that the UI displays.
    pub display_name: String,
    /// Optional stream title.
    pub title: Option<String>,
}

/// Mathematical value of a [`StreamResp`].
pub struct StreamRespView {
    pub username: Seq<char>,
    pub display_name: Seq<char>,
    pub title: Option<Seq<char>>,
}

impl View for StreamResp {
    type V = StreamRespView;

    open spec fn view(&self) -> StreamRespView {
        StreamRespView {
            username: self.username@,
            display_name: self.display_name@,
            title: self.title.deep_view(),
        }
    }
}

/// The changes that an update request asks for. A field that is `None` is
/// left as it is.
#[derive(Debug)]
pub struct UserUpdate {
    /// The account to update. If `None`, the account that is logged in.
    pub username: Option<String>,
    /// The new display name.
    pub display_name: Option<String>,
    /// The new password.
    pub new_password: Option<String>,
    /// The old password, required of everyone but administrators to change
    /// the password.
    pub old_password: Option<String>,
    /// The new stream title.
    pub stream_title: Option<String>,
    /// The new permissions; only administrators can set them.
    pub permissions: Option<String>,
}

/// Mathematical value of a [`UserUpdate`].
pub struct UserUpdateView {
    pub username: Option<Seq<char>>,
    pub display_name: Option<Seq<char>>,
    pub new_password: Option<Seq<char>>,
    pub old_password: Option<Seq<char>>,
    pub stream_title: Option<Seq<char>>,
    pub permissions: Option<Seq<char>>,
}

impl View for UserUpdate {
    type V = UserUpdateView;

    open spec fn view(&self) -> UserUpdateView {
        UserUpdateView {
            username: self.username.deep_view(),
            display_name: self.display_name.deep_view(),
            new_password: self.new_password.deep_view(),
            old_password: self.old_password.deep_view(),
            stream_title: self.stream_title.deep_view(),
            permissions: self.permissions.deep_view(),
        }
    }
}

} // verus!
