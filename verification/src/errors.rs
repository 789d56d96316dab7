//! The failures that the account and session operations report.

use vstd::prelude::*;
use vstd::string::*;

verus! {

/// Why hashing or checking a password failed, as far as this library tells
/// the causes apart.
#[derive(Debug)]
pub enum PasswordHashError {
    /// The password does not belong to the hash.
    Password,
    /// Any other failure of the hashing function, with its description.
    Other(String),
}

/// Mathematical value of a [`PasswordHashError`].
pub enum PasswordHashErrorView {
    Password,
    Other(Seq<char>),
}

impl View for PasswordHashError {
    type V = PasswordHashErrorView;

    open spec fn view(&self) -> PasswordHashErrorView {
        match self {
            PasswordHashError::Password => PasswordHashErrorView::Password,
            PasswordHashError::Other(text) => PasswordHashErrorView::Other(text@),
        }
    }
}

/// Everything that can go wrong while serving a request.
#[derive(Debug)]
pub enum OMError {
    /// The session is missing or does not resolve to an account.
    InvalidSession,
    /// No account carries the given username.
    NotFound(String),
    /// The username is already registered.
    NameTaken,
    /// The account lacks the capability that the operation needs.
    NoPermission,
    /// The username breaks the format rule.
    InvalidUsername,
    /// The password does not belong to the account.
    InvalidPassword,
    /// The streaming engine could not be reached; the text describes why.
    ReqwestError(String),
    /// The credential store failed; the text describes why.
    SqlxError(String),
    /// A background task failed; the text describes why.
    JoinError(String),
    /// Password hashing failed; the text describes why.
    ArgonError(String),
}

/// Mathematical value of an [`OMError`].
pub enum OMErrorView {
    InvalidSession,
    NotFound(Seq<char>),
    NameTaken,
    NoPermission,
    InvalidUsername,
    InvalidPassword,
    ReqwestError(Seq<char>),
    SqlxError(Seq<char>),
    JoinError(Seq<char>),
    ArgonError(Seq<char>),
}

impl View for OMError {
    type V = OMErrorView;

    open spec fn view(&self) -> OMErrorView {
        match self {
            OMError::InvalidSession => OMErrorView::InvalidSession,
            OMError::NotFound(name) => OMErrorView::NotFound(name@),
            OMError::NameTaken => OMErrorView::NameTaken,
            OMError::NoPermission => OMErrorView::NoPermission,
            OMError::InvalidUsername => OMErrorView::InvalidUsername,
            OMError::InvalidPassword => OMErrorView::InvalidPassword,
            OMError::ReqwestError(text) => OMErrorView::ReqwestError(text@),
            OMError::SqlxError(text) => OMErrorView::SqlxError(text@),
            OMError::JoinError(text) => OMErrorView::JoinError(text@),
            OMError::ArgonError(text) => OMErrorView::ArgonError(text@),
        }
    }
}

/// The HTTP status that stands for each kind of failure: 401 for a bad
/// session, 404 for an unknown name, 409 for a taken name, 403 where
/// permission or password fails, 400 for a malformed username and 500 for the
/// failures of collaborators.
pub open spec fn status_of(e: OMErrorView) -> u16 {
    match e {
        OMErrorView::InvalidSession => 401,
        OMErrorView::NotFound(_) => 404,
        OMErrorView::NameTaken => 409,
        OMErrorView::NoPermission => 403,
        OMErrorView::InvalidPassword => 403,
        OMErrorView::InvalidUsername => 400,
        OMErrorView::ReqwestError(_) => 500,
        OMErrorView::SqlxError(_) => 500,
        OMErrorView::JoinError(_) => 500,
        OMErrorView::ArgonError(_) => 500,
    }
}

/// The sentence shown to the user for each kind of failure. Failures of
/// collaborators show the collaborator's own description.
pub open spec fn message_of(e: OMErrorView) -> Seq<char> {
    match e {
        OMErrorView::InvalidSession => "Invalid session."@,
        OMErrorView::NotFound(name) => "Username `"@ + name + "` not found."@,
        OMErrorView::NameTaken => "Username is already taken."@,
        OMErrorView::NoPermission => "You don't have permission to do that."@,
        OMErrorView::InvalidUsername => "Username contains invalid characters."@,
        OMErrorView::InvalidPassword => "Invalid password."@,
        OMErrorView::ReqwestError(text) => text,
        OMErrorView::SqlxError(text) => text,
        OMErrorView::JoinError(text) => text,
        OMErrorView::ArgonError(text) => text,
    }
}

impl OMError {
    /// The HTTP status to answer with.
    pub fn status_code(&self) -> (code: u16)
        ensures
            code == status_of(self@),
            400 <= code <= 500,
    {
        match self {
            OMError::InvalidSession => 401,
            OMError::NotFound(_) => 404,
            OMError::NameTaken => 409,
            OMError::NoPermission | OMError::InvalidPassword => 403,
            OMError::InvalidUsername => 400,
            OMError::SqlxError(_)
            | OMError::JoinError(_)
            | OMError::ArgonError(_)
            | OMError::ReqwestError(_) => 500,
        }
    }

    /// The text to answer with.
    pub fn message(&self) -> (text: String)
        ensures
            text@ == message_of(self@),
    {
        match self {
            OMError::InvalidSession => String::from_str("Invalid session."),
            OMError::NotFound(name) => {
                let mut text = String::from_str("Username `");
                text.append(name.as_str());
                text.append("` not found.");
                text
            },
            OMError::NameTaken => String::from_str("Username is already taken."),
            OMError::NoPermission => String::from_str("You don't have permission to do that."),
            OMError::InvalidUsername => String::from_str("Username contains invalid characters."),
            OMError::InvalidPassword => String::from_str("Invalid password."),
            OMError::ReqwestError(text) => text.clone(),
            OMError::SqlxError(text) => text.clone(),
            OMError::JoinError(text) => text.clone(),
            OMError::ArgonError(text) => text.clone(),
        }
    }
}

impl From<PasswordHashError> for OMError {
    /// A password that does not match is the caller's mistake; every other
    /// failure of the hashing function is an internal one.
    fn from(e: PasswordHashError) -> (r: OMError) {
        match e {
            PasswordHashError::Password => OMError::InvalidPassword,
            PasswordHashError::Other(text) => OMError::ArgonError(text),
        }
    }
}

impl vstd::std_specs::convert::FromSpecImpl<PasswordHashError> for OMError {
    open spec fn obeys_from_spec() -> bool {
        true
    }

    open spec fn from_spec(e: PasswordHashError) -> OMError {
        match e {
            PasswordHashError::Password => OMError::InvalidPassword,
            PasswordHashError::Other(text) => OMError::ArgonError(text),
        }
    }
}

} // verus!
