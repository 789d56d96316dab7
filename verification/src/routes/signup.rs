//! Registration: a new account under a name that is valid and free.

use vstd::prelude::*;
use vstd::string::*;
use crate::{is_valid_username, valid_username};
use crate::crypto::{
    gen_stream_key, hash_password, hashed, is_stream_key, lemma_stream_key_exists, password_bytes,
    password_matches,
};
use crate::db::{account_named, account_with_key, Store, StoreView, KEY_IN_USE};
use crate::errors::{OMError, OMErrorView, PasswordHashError, PasswordHashErrorView};
use crate::objects::{User, UserLogin, UserView};
use crate::routes::outcome;

verus! {

/// The failure that stands for a failure of the hashing function.
pub open spec fn hashing_failure(e: PasswordHashErrorView) -> OMErrorView {
    match e {
        PasswordHashErrorView::Password => OMErrorView::InvalidPassword,
        PasswordHashErrorView::Other(text) => OMErrorView::ArgonError(text),
    }
}

/// The account that registration creates: displayed under its username,
/// without permissions and without a stream title.
pub open spec fn fresh_account(username: Seq<char>, hash: Seq<char>, key: Seq<char>) -> UserView {
    UserView {
        username,
        display_name: username,
        password: hash,
        stream_key: key,
        permissions: None,
        stream_title: None,
    }
}

/// What registering `username` does to the store and returns, given the
/// outcome of hashing the password and the stream key drawn for the account.
///
/// A name that is taken is refused first, then a name that breaks the format
/// rule. After that a failure to hash the password ends the registration, and
/// so does a stream key that is in use. Otherwise the account joins the
/// store. Whenever the registration fails the store stays as it is.
pub open spec fn registration(
    store: StoreView,
    username: Seq<char>,
    hash: Result<Seq<char>, PasswordHashErrorView>,
    key: Seq<char>,
) -> (StoreView, Result<(), OMErrorView>) {
    if account_named(store.users, username) is Some {
        (store, Err(OMErrorView::NameTaken))
    } else if !valid_username(username) {
        (store, Err(OMErrorView::InvalidUsername))
    } else {
        match hash {
            Err(e) => (store, Err(hashing_failure(e))),
            Ok(hash) => if account_with_key(store.users, key) is Some {
                (store, Err(OMErrorView::SqlxError(KEY_IN_USE@)))
            } else {
                (
                    StoreView {
                        users: store.users.push(fresh_account(username, hash, key)),
                        sessions: store.sessions,
                    },
                    Ok(()),
                )
            },
        }
    }
}

/// Decides whether `username` may be registered, given the account that the
/// store holds under that name, if any.
pub fn check_registration(existing: Option<&User>, username: &str) -> (r: Result<(), OMError>)
    ensures
        outcome(r) == (if existing is Some {
            Err(OMErrorView::NameTaken)
        } else if !valid_username(username@) {
            Err(OMErrorView::InvalidUsername)
        } else {
            Ok(())
        }),
{
    if existing.is_some() {
        return Err(OMError::NameTaken);
    }
    if !is_valid_username(username) {
        return Err(OMError::InvalidUsername);
    }
    Ok(())
}

/// The account that registration creates for `username`.
pub fn new_account(username: &str, hash: String, key: String) -> (user: User)
    ensures
        user@ == fresh_account(username@, hash@, key@),
{
    User {
        username: String::from_str(username),
        display_name: String::from_str(username),
        password: hash,
        stream_key: key,
        permissions: None,
        stream_title: None,
    }
}

/// Registers an account for `creds.username`, given the outcome of hashing
/// its password and the stream key drawn for it.
pub fn register_with(
    db: &mut Store,
    creds: &UserLogin,
    hash: Result<String, PasswordHashError>,
    key: String,
) -> (r: Result<(), OMError>)
    ensures
        (final(db)@, outcome(r)) == registration(old(db)@, creds.username@, hashed(hash), key@),
{
    let existing = User::from_name(creds.username.as_str(), db);
    check_registration(existing.as_ref(), creds.username.as_str())?;
    match hash {
        Err(e) => Err(OMError::from(e)),
        Ok(hash) => db.insert_user(new_account(creds.username.as_str(), hash, key)),
    }
}

/// Registers a new account, making sure that the username is valid and free.
///
/// The password is hashed and the stream key drawn only for a name that can
/// be registered. The account that joins the store carries a hash that the
/// password matches and a stream key of the proper shape.
pub fn register(db: &mut Store, creds: &UserLogin) -> (r: Result<(), OMError>)
    ensures
        exists|hash: Result<Seq<char>, PasswordHashErrorView>, key: Seq<char>|
            {
                &&& (final(db)@, outcome(r)) == #[trigger] registration(
                    old(db)@,
                    creds.username@,
                    hash,
                    key,
                )
                &&& is_stream_key(key)
                &&& hash matches Ok(h) ==> password_matches(h, password_bytes(creds.password@))
            },
{
    let existing = User::from_name(creds.username.as_str(), db);
    match check_registration(existing.as_ref(), creds.username.as_str()) {
        Err(e) => {
            proof {
                let key = lemma_stream_key_exists();
                let hash: Result<Seq<char>, PasswordHashErrorView> = Err(
                    PasswordHashErrorView::Password,
                );
                assert((db@, outcome(Err::<(), OMError>(e))) == registration(
                    old(db)@,
                    creds.username@,
                    hash,
                    key,
                ));
            }
            Err(e)
        },
        Ok(()) => {
            let hash = hash_password(creds.password.as_str().as_bytes());
            let key = gen_stream_key();
            let ghost h = hashed(hash);
            let ghost k = key@;
            let r = register_with(db, creds, hash, key);
            assert((db@, outcome(r)) == registration(old(db)@, creds.username@, h, k));
            r
        },
    }
}

} // verus!
