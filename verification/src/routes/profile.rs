//! Updating an account: what may be changed by whom, in which order the
//! changes are made, and what the update returns.

use vstd::prelude::*;
use vstd::string::*;
use crate::auth::{grants, IS_ADMIN};
use crate::crypto::{hash_password, hashed, password_bytes, password_matches, verify_password};
use crate::db::{account_named, updated, Change, ChangeView, Store, StoreView};
use crate::errors::{OMError, OMErrorView, PasswordHashError, PasswordHashErrorView};
use crate::objects::{User, UserUpdate, UserUpdateView, UserView};
use crate::routes::{outcome, presented, requester};

verus! {

/// What an update does about the password: `Err` if the change is refused,
/// otherwise whether the new password is to be hashed and stored.
///
/// A new password without the old one is for administrators to set. A new
/// password with the old one is set if the old one matches the hash of the
/// account. Without a new password nothing happens.
pub open spec fn password_step(performer: UserView, target: UserView, body: UserUpdateView) -> Result<
    bool,
    OMErrorView,
> {
    match (body.old_password, body.new_password) {
        (None, Some(_)) => if grants(performer.permissions, IS_ADMIN@) {
            Ok(true)
        } else {
            Err(OMErrorView::NoPermission)
        },
        (Some(old), Some(_)) => if password_matches(target.password, password_bytes(old)) {
            Ok(true)
        } else {
            Err(OMErrorView::InvalidPassword)
        },
        _ => Ok(false),
    }
}

/// Decides what an update does about the password: `Err` if the change is
/// refused, otherwise the new password that is to be hashed and stored, if
/// any.
pub fn password_change<'a>(performer: &User, target: &User, body: &'a UserUpdate) -> (r: Result<
    Option<&'a String>,
    OMError,
>)
    ensures
        match password_step(performer@, target@, body@) {
            Ok(true) => r matches Ok(Some(new)) && body@.new_password == Some(new@),
            Ok(false) => r matches Ok(None),
            Err(e) => r matches Err(refusal) && refusal@ == e,
        },
{
    match (&body.old_password, &body.new_password) {
        (None, Some(new)) => if performer.is_admin() {
            Ok(Some(new))
        } else {
            Err(OMError::NoPermission)
        },
        (Some(old), Some(new)) => if verify_password(
            target.password.as_str(),
            old.as_str().as_bytes(),
        ) {
            Ok(Some(new))
        } else {
            Err(OMError::InvalidPassword)
        },
        _ => Ok(None),
    }
}

/// The changes that an update makes to its target, in order, and what it
/// returns, given whether the performer is an administrator and what became
/// of the password: `Err` if its change was refused, otherwise the new hash
/// to store, if any.
///
/// Display name and stream title are changed first. A refused password
/// change ends the update there. Then the new hash is stored, and last the
/// permissions, which only an administrator may set: from anyone else a
/// request to set them fails, after all other changes were made.
pub open spec fn plan_of(
    admin: bool,
    body: UserUpdateView,
    password: Result<Option<Seq<char>>, OMErrorView>,
) -> (Seq<ChangeView>, Result<(), OMErrorView>) {
    let named: Seq<ChangeView> = match body.display_name {
        Some(name) => seq![ChangeView::DisplayName(name)],
        None => seq![],
    };
    let titled = match body.stream_title {
        Some(title) => named.push(ChangeView::StreamTitle(title)),
        None => named,
    };
    match password {
        Err(e) => (titled, Err(e)),
        Ok(hash) => {
            let hashed = match hash {
                Some(h) => titled.push(ChangeView::Password(h)),
                None => titled,
            };
            match body.permissions {
                Some(list) => if admin {
                    (hashed.push(ChangeView::Permissions(list)), Ok(()))
                } else {
                    (hashed, Err(OMErrorView::NoPermission))
                },
                None => (hashed, Ok(())),
            }
        },
    }
}

/// The changes to make to the target of an update, in order, and what the
/// update returns once they are made.
#[derive(Debug)]
pub struct UpdatePlan {
    /// The changes, in the order in which they are made.
    pub changes: Vec<Change>,
    /// What the update returns after the changes.
    pub result: Result<(), OMError>,
}

/// The values of a run of changes.
pub open spec fn change_views(changes: Seq<Change>) -> Seq<ChangeView> {
    changes.map_values(|c: Change| c@)
}

impl View for UpdatePlan {
    type V = (Seq<ChangeView>, Result<(), OMErrorView>);

    open spec fn view(&self) -> (Seq<ChangeView>, Result<(), OMErrorView>) {
        (change_views(self.changes@), outcome(self.result))
    }
}

/// Mathematical value of what became of the password in an update.
pub open spec fn password_outcome(password: Result<Option<String>, OMError>) -> Result<
    Option<Seq<char>>,
    OMErrorView,
> {
    match password {
        Ok(hash) => Ok(hash.deep_view()),
        Err(e) => Err(e@),
    }
}

/// Plans an update: lists the changes to make and fixes what the update
/// returns, given whether the performer is an administrator and what became
/// of the password.
pub fn plan_update(admin: bool, body: &UserUpdate, password: Result<Option<String>, OMError>) -> (plan:
    UpdatePlan)
    ensures
        plan@ == plan_of(admin, body@, password_outcome(password)),
{
    let mut changes: Vec<Change> = Vec::new();
    assert(change_views(changes@) =~= seq![]);
    if let Some(name) = &body.display_name {
        changes.push(Change::DisplayName(name.clone()));
        assert(change_views(changes@) =~= seq![ChangeView::DisplayName(name@)]);
    }
    if let Some(title) = &body.stream_title {
        let ghost before = change_views(changes@);
        changes.push(Change::StreamTitle(title.clone()));
        assert(change_views(changes@) =~= before.push(ChangeView::StreamTitle(title@)));
    }
    let hash = match password {
        Err(e) => {
            return UpdatePlan { changes, result: Err(e) };
        },
        Ok(hash) => hash,
    };
    if let Some(h) = hash {
        let ghost before = change_views(changes@);
        let ghost text = h@;
        changes.push(Change::Password(h));
        assert(change_views(changes@) =~= before.push(ChangeView::Password(text)));
    }
    match &body.permissions {
        Some(list) => if admin {
            let ghost before = change_views(changes@);
            changes.push(Change::Permissions(list.clone()));
            assert(change_views(changes@) =~= before.push(ChangeView::Permissions(list@)));
            UpdatePlan { changes, result: Ok(()) }
        } else {
            UpdatePlan { changes, result: Err(OMError::NoPermission) }
        },
        None => UpdatePlan { changes, result: Ok(()) },
    }
}

/// The accounts after the changes were made, one after the other, to the
/// account called `username`.
pub open spec fn applied_all(
    users: Seq<UserView>,
    username: Seq<char>,
    changes: Seq<ChangeView>,
) -> Seq<UserView>
    decreases changes.len(),
{
    if changes.len() == 0 {
        users
    } else {
        updated(applied_all(users, username, changes.drop_last()), username, changes.last())
    }
}

/// The account that an update is made to: the one registered under the name
/// that the request gives, or the performer's own if it gives none.
pub open spec fn update_target(
    users: Seq<UserView>,
    performer: UserView,
    body: UserUpdateView,
) -> Option<UserView> {
    match body.username {
        Some(name) => account_named(users, name),
        None => Some(performer),
    }
}

/// What becomes of the password in an update, given the outcome of hashing
/// the new one: a refused change stays refused, a new password whose hashing
/// failed is silently not stored.
pub open spec fn hashed_password(
    step: Result<bool, OMErrorView>,
    hash: Result<Seq<char>, PasswordHashErrorView>,
) -> Result<Option<Seq<char>>, OMErrorView> {
    match step {
        Err(e) => Err(e),
        Ok(true) => match hash {
            Ok(h) => Ok(Some(h)),
            Err(_) => Ok(None),
        },
        Ok(false) => Ok(None),
    }
}

/// What an update does to the store and returns, given the outcome of
/// hashing the new password.
///
/// The request must carry a valid session. Only an administrator may name
/// the account to update; the account must exist. Then the changes of the
/// plan are made to it, and the update returns what the plan says. Sessions
/// stay as they are.
pub open spec fn update_outcome(
    store: StoreView,
    cookie: Option<Seq<char>>,
    body: UserUpdateView,
    hash: Result<Seq<char>, PasswordHashErrorView>,
) -> (StoreView, Result<(), OMErrorView>) {
    match requester(store, cookie) {
        None => (store, Err(OMErrorView::InvalidSession)),
        Some(performer) => {
            let admin = grants(performer.permissions, IS_ADMIN@);
            if body.username is Some && !admin {
                (store, Err(OMErrorView::NoPermission))
            } else {
                match update_target(store.users, performer, body) {
                    None => (store, Err(OMErrorView::NotFound(body.username.unwrap()))),
                    Some(target) => {
                        let plan = plan_of(
                            admin,
                            body,
                            hashed_password(password_step(performer, target, body), hash),
                        );
                        (
                            StoreView {
                                users: applied_all(store.users, target.username, plan.0),
                                sessions: store.sessions,
                            },
                            plan.1,
                        )
                    },
                }
            }
        },
    }
}

/// Decides whether `performer` may make the update at all: only an
/// administrator may name the account to update.
pub fn authorize_update(performer: &User, body: &UserUpdate) -> (r: Result<(), OMError>)
    ensures
        outcome(r) == (if body@.username is Some && !grants(performer@.permissions, IS_ADMIN@) {
            Err(OMErrorView::NoPermission)
        } else {
            Ok(())
        }),
{
    if body.username.is_some() && !performer.is_admin() {
        return Err(OMError::NoPermission);
    }
    Ok(())
}

/// The account that the update is made to, given the account that the store
/// holds under the name that the request gives, if it gives one.
pub fn choose_target(performer: &User, body: &UserUpdate, named: Option<User>) -> (r: Result<
    User,
    OMError,
>)
    ensures
        match body@.username {
            Some(name) => match named {
                Some(user) => r == Ok::<User, OMError>(user),
                None => r matches Err(e) && e@ == OMErrorView::NotFound(name),
            },
            None => r matches Ok(user) && user@ == performer@,
        },
{
    match &body.username {
        Some(name) => match named {
            Some(user) => Ok(user),
            None => Err(OMError::NotFound(name.clone())),
        },
        None => Ok(performer.clone()),
    }
}

/// Makes the changes, one after the other, to the account called `username`.
pub fn apply_changes(db: &mut Store, username: &str, changes: &Vec<Change>)
    ensures
        final(db)@.users == applied_all(old(db)@.users, username@, change_views(changes@)),
        final(db)@.sessions == old(db)@.sessions,
{
    let ghost all = change_views(changes@);
    let mut i: usize = 0;
    while i < changes.len()
        invariant
            i <= changes.len(),
            all == change_views(changes@),
            db@.users == applied_all(old(db)@.users, username@, all.take(i as int)),
            db@.sessions == old(db)@.sessions,
        decreases changes.len() - i,
    {
        proof {
            assert(all.take(i + 1).drop_last() =~= all.take(i as int));
            assert(all.take(i + 1).last() == changes@[i as int]@);
        }
        db.update(username, &changes[i]);
        i += 1;
    }
    assert(all.take(i as int) =~= all);
}

/// What is known of the outcome `hash` of hashing the new password of an
/// update: it is the one that was given, or, where it was computed, a hash
/// that the new password matches.
spec fn hash_accounted_for(
    given: Option<Result<String, PasswordHashError>>,
    body: UserUpdateView,
    hash: Result<Seq<char>, PasswordHashErrorView>,
) -> bool {
    match given {
        Some(g) => hash == hashed(g),
        None => forall|new: Seq<char>, h: Seq<char>|
            body.new_password == Some(new) && hash == Ok::<Seq<char>, PasswordHashErrorView>(h)
                ==> password_matches(h, password_bytes(new)),
    }
}

/// The outcome of hashing that stands for one that was never asked for.
spec fn unused_hash(given: Option<Result<String, PasswordHashError>>) -> Result<
    Seq<char>,
    PasswordHashErrorView,
> {
    match given {
        Some(g) => hashed(g),
        None => Err(PasswordHashErrorView::Password),
    }
}

/// Makes an update with the hash of the new password that is `given`, or,
/// where none is given, with one that is computed when it is needed.
fn run_update(
    db: &mut Store,
    cookie: Option<&str>,
    body: &UserUpdate,
    given: Option<Result<String, PasswordHashError>>,
) -> (r: Result<(), OMError>)
    ensures
        exists|hash: Result<Seq<char>, PasswordHashErrorView>|
            {
                &&& hash_accounted_for(given, body@, hash)
                &&& (final(db)@, outcome(r)) == #[trigger] update_outcome(
                    old(db)@,
                    presented(cookie),
                    body@,
                    hash,
                )
            },
{
    let ghost idle = unused_hash(given);
    let performer = match User::from_req(db, cookie) {
        Ok(user) => user,
        Err(e) => {
            assert((db@, outcome(Err::<(), OMError>(e))) == update_outcome(
                old(db)@,
                presented(cookie),
                body@,
                idle,
            ));
            return Err(e);
        },
    };
    if let Err(e) = authorize_update(&performer, body) {
        assert((db@, outcome(Err::<(), OMError>(e))) == update_outcome(
            old(db)@,
            presented(cookie),
            body@,
            idle,
        ));
        return Err(e);
    }
    let named = match &body.username {
        Some(name) => User::from_name(name.as_str(), db),
        None => None,
    };
    let target = match choose_target(&performer, body, named) {
        Ok(user) => user,
        Err(e) => {
            assert((db@, outcome(Err::<(), OMError>(e))) == update_outcome(
                old(db)@,
                presented(cookie),
                body@,
                idle,
            ));
            return Err(e);
        },
    };
    let ghost step = password_step(performer@, target@, body@);
    let ghost used: Result<Seq<char>, PasswordHashErrorView>;
    let password: Result<Option<String>, OMError> = match password_change(&performer, &target, body) {
        Err(e) => {
            proof {
                used = idle;
            }
            Err(e)
        },
        Ok(None) => {
            proof {
                used = idle;
            }
            Ok(None)
        },
        Ok(Some(new)) => {
            let hash = match given {
                Some(g) => g,
                None => hash_password(new.as_str().as_bytes()),
            };
            proof {
                used = hashed(hash);
            }
            match hash {
                Ok(h) => Ok(Some(h)),
                Err(_) => Ok(None),
            }
        },
    };
    assert(password_outcome(password) == hashed_password(step, used));
    let plan = plan_update(performer.is_admin(), body, password);
    apply_changes(db, target.username.as_str(), &plan.changes);
    assert((db@, outcome(plan.result)) == update_outcome(
        old(db)@,
        presented(cookie),
        body@,
        used,
    ));
    plan.result
}

/// Updates an account, given the outcome of hashing the new password that
/// the request carries. The outcome is used only where the update stores a
/// new password.
pub fn update_user_with(
    db: &mut Store,
    cookie: Option<&str>,
    body: &UserUpdate,
    hash: Result<String, PasswordHashError>,
) -> (r: Result<(), OMError>)
    ensures
        (final(db)@, outcome(r)) == update_outcome(
            old(db)@,
            presented(cookie),
            body@,
            hashed(hash),
        ),
{
    run_update(db, cookie, body, Some(hash))
}

/// Updates an account: the one that is logged in, or, for administrators,
/// the one that the request names.
///
/// A new password is hashed only where the update stores it, and the hash
/// that is stored is one that the new password matches.
pub fn update_user(db: &mut Store, cookie: Option<&str>, body: &UserUpdate) -> (r: Result<
    (),
    OMError,
>)
    ensures
        exists|hash: Result<Seq<char>, PasswordHashErrorView>|
            {
                &&& (final(db)@, outcome(r)) == #[trigger] update_outcome(
                    old(db)@,
                    presented(cookie),
                    body@,
                    hash,
                )
                &&& forall|new: Seq<char>, h: Seq<char>|
                    body@.new_password == Some(new) && hash == Ok::<
                        Seq<char>,
                        PasswordHashErrorView,
                    >(h) ==> password_matches(h, password_bytes(new))
            },
{
    run_update(db, cookie, body, None)
}

} // verus!
