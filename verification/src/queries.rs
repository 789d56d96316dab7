//! The lookups that requests start with.

use vstd::prelude::*;
use crate::db::{account_called, found, session_owner, Store};
use crate::objects::User;

verus! {

/// The account that the session token `session` speaks for.
pub fn get_user_by_session(session: &str, db: &Store) -> (user: Option<User>)
    ensures
        found(user) == session_owner(db@, session@),
{
    User::from_session(session, db)
}

/// The account whose username is `name`, letter for letter.
pub fn get_user_by_name(name: &str, db: &Store) -> (user: Option<User>)
    ensures
        found(user) == account_called(db@.users, name@),
{
    db.find_by_username(name)
}

} // verus!
