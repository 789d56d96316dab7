//! The credential store: the accounts and the sessions that are open.
//!
//! Usernames are unique without regard to the case of ASCII letters, stream
//! keys and session tokens are unique as they stand. The store keeps that so,
//! whatever is asked of it.

use vstd::prelude::*;
use vstd::string::*;
use crate::errors::{OMError, OMErrorView};
use crate::objects::{Session, SessionView, User, UserView};
use crate::text::{same_text, to_chars};

verus! {

/// The lower-case form of an ASCII capital letter; every other character is
/// its own.
pub open spec fn lower(c: char) -> char {
    if 'A' <= c <= 'Z' {
        ((c as u8) + 32) as char
    } else {
        c
    }
}

/// Two usernames are the same name if they differ at most in the case of
/// ASCII letters.
pub open spec fn same_name(a: Seq<char>, b: Seq<char>) -> bool {
    &&& a.len() == b.len()
    &&& forall|i: int| 0 <= i < a.len() ==> lower(#[trigger] a[i]) == lower(b[i])
}

fn to_lower(c: char) -> (l: char)
    ensures
        l == lower(c),
{
    if 'A' <= c && c <= 'Z' {
        ((c as u8) + 32) as char
    } else {
        c
    }
}

/// Whether `a` and `b` are the same username.
pub fn is_same_name(a: &str, b: &str) -> (same: bool)
    ensures
        same == same_name(a@, b@),
{
    let left = to_chars(a);
    let right = to_chars(b);
    if left.len() != right.len() {
        return false;
    }
    let mut i: usize = 0;
    while i < left.len()
        invariant
            left@ == a@,
            right@ == b@,
            left.len() == right.len(),
            i <= left.len(),
            forall|j: int| 0 <= j < i ==> lower(#[trigger] a@[j]) == lower(b@[j]),
        decreases left.len() - i,
    {
        if to_lower(left[i]) != to_lower(right[i]) {
            assert(lower(a@[i as int]) != lower(b@[i as int]));
            return false;
        }
        i += 1;
    }
    true
}

/// The credential store.
pub struct Store {
    users: Vec<User>,
    sessions: Vec<Session>,
}

/// Mathematical value of a [`Store`]: the accounts in the order in which
/// they were registered, and the open sessions in the order in which they
/// were opened.
pub struct StoreView {
    pub users: Seq<UserView>,
    pub sessions: Seq<SessionView>,
}

/// The values of a run of accounts.
pub open spec fn accounts(users: Seq<User>) -> Seq<UserView> {
    users.map_values(|u: User| u@)
}

/// The values of a run of sessions.
pub open spec fn open_sessions(sessions: Seq<Session>) -> Seq<SessionView> {
    sessions.map_values(|s: Session| s@)
}

impl View for Store {
    type V = StoreView;

    closed spec fn view(&self) -> StoreView {
        StoreView { users: accounts(self.users@), sessions: open_sessions(self.sessions@) }
    }
}

/// What a store never breaks: no two accounts share a name or a stream key,
/// no two sessions share a token.
pub open spec fn consistent(store: StoreView) -> bool {
    &&& forall|i: int, j: int|
        0 <= i < j < store.users.len() ==> !same_name(
            (#[trigger] store.users[i]).username,
            (#[trigger] store.users[j]).username,
        )
    &&& forall|i: int, j: int|
        0 <= i < j < store.users.len() ==> (#[trigger] store.users[i]).stream_key != (
        #[trigger] store.users[j]).stream_key
    &&& forall|i: int, j: int|
        0 <= i < j < store.sessions.len() ==> (#[trigger] store.sessions[i]).session != (
        #[trigger] store.sessions[j]).session
}

/// The first of `users` that is `wanted`.
pub open spec fn first_account(
    users: Seq<UserView>,
    wanted: spec_fn(UserView) -> bool,
) -> Option<UserView>
    decreases users.len(),
{
    if users.len() == 0 {
        None
    } else {
        match first_account(users.drop_last(), wanted) {
            Some(user) => Some(user),
            None => if wanted(users.last()) {
                Some(users.last())
            } else {
                None
            },
        }
    }
}

/// The account registered under `name`, whatever the case of its letters.
pub open spec fn account_named(users: Seq<UserView>, name: Seq<char>) -> Option<UserView> {
    first_account(users, |u: UserView| same_name(u.username, name))
}

/// The account whose username is `username`, letter for letter.
pub open spec fn account_called(users: Seq<UserView>, username: Seq<char>) -> Option<UserView> {
    first_account(users, |u: UserView| u.username == username)
}

/// The account that owns the stream key `key`.
pub open spec fn account_with_key(users: Seq<UserView>, key: Seq<char>) -> Option<UserView> {
    first_account(users, |u: UserView| u.stream_key == key)
}

/// The first of `sessions` that carries `token`.
pub open spec fn session_with(sessions: Seq<SessionView>, token: Seq<char>) -> Option<
    SessionView,
>
    decreases sessions.len(),
{
    if sessions.len() == 0 {
        None
    } else {
        match session_with(sessions.drop_last(), token) {
            Some(session) => Some(session),
            None => if sessions.last().session == token {
                Some(sessions.last())
            } else {
                None
            },
        }
    }
}

/// The account that the session `token` speaks for: the owner of the open
/// session with that token, as long as the account exists.
pub open spec fn session_owner(store: StoreView, token: Seq<char>) -> Option<UserView> {
    match session_with(store.sessions, token) {
        Some(session) => account_called(store.users, session.user_id),
        None => None,
    }
}

/// `sessions` without those that carry `token`.
pub open spec fn without_session(sessions: Seq<SessionView>, token: Seq<char>) -> Seq<
    SessionView,
>
    decreases sessions.len(),
{
    if sessions.len() == 0 {
        sessions
    } else if sessions.last().session == token {
        without_session(sessions.drop_last(), token)
    } else {
        without_session(sessions.drop_last(), token).push(sessions.last())
    }
}

/// Mathematical value of an account that may be absent.
pub open spec fn found(user: Option<User>) -> Option<UserView> {
    match user {
        Some(u) => Some(u@),
        None => None,
    }
}

/// How an account is looked up.
enum Lookup {
    /// By name, whatever the case of its letters.
    Name,
    /// By username, letter for letter.
    Username,
    /// By stream key.
    Key,
}

/// The accounts that a lookup of `text` is after.
spec fn sought(by: Lookup, text: Seq<char>) -> spec_fn(UserView) -> bool {
    match by {
        Lookup::Name => |u: UserView| same_name(u.username, text),
        Lookup::Username => |u: UserView| u.username == text,
        Lookup::Key => |u: UserView| u.stream_key == text,
    }
}

fn is_sought(by: &Lookup, text: &str, user: &User) -> (yes: bool)
    ensures
        yes == sought(*by, text@)(user@),
{
    match by {
        Lookup::Name => is_same_name(user.username.as_str(), text),
        Lookup::Username => same_text(user.username.as_str(), text),
        Lookup::Key => same_text(user.stream_key.as_str(), text),
    }
}

/// The place of the first of `users` that the lookup is after.
fn position(users: &Vec<User>, by: Lookup, text: &str) -> (at: Option<usize>)
    ensures
        match at {
            Some(i) => i < users.len() && sought(by, text@)(users@[i as int]@) && first_account(
                accounts(users@),
                sought(by, text@),
            ) == Some(users@[i as int]@),
            None => first_account(accounts(users@), sought(by, text@)) is None,
        },
{
    let ghost all = accounts(users@);
    let mut i: usize = 0;
    while i < users.len()
        invariant
            i <= users.len(),
            all == accounts(users@),
            first_account(all.take(i as int), sought(by, text@)) is None,
        decreases users.len() - i,
    {
        proof {
            assert(all.take(i + 1).drop_last() =~= all.take(i as int));
        }
        if is_sought(&by, text, &users[i]) {
            proof {
                lemma_first_account_stays(all.take(i + 1), all, sought(by, text@));
            }
            return Some(i);
        }
        i += 1;
    }
    assert(all.take(i as int) =~= all);
    None
}

/// What is found first in the front of a run is found first in the run.
proof fn lemma_first_account_stays(
    front: Seq<UserView>,
    users: Seq<UserView>,
    wanted: spec_fn(UserView) -> bool,
)
    requires
        front.len() <= users.len(),
        front == users.take(front.len() as int),
        first_account(front, wanted) is Some,
    ensures
        first_account(users, wanted) == first_account(front, wanted),
    decreases users.len() - front.len(),
{
    if front.len() < users.len() {
        let longer = users.take(front.len() as int + 1);
        assert(longer.drop_last() =~= front);
        lemma_first_account_stays(longer, users, wanted);
    } else {
        assert(front =~= users);
    }
}

/// If nothing wanted is found, nothing is wanted.
pub proof fn lemma_none_wanted(users: Seq<UserView>, wanted: spec_fn(UserView) -> bool)
    requires
        first_account(users, wanted) is None,
    ensures
        forall|i: int| 0 <= i < users.len() ==> !wanted(#[trigger] users[i]),
    decreases users.len(),
{
    if users.len() > 0 {
        lemma_none_wanted(users.drop_last(), wanted);
        assert forall|i: int| 0 <= i < users.len() implies !wanted(#[trigger] users[i]) by {
            if i < users.len() - 1 {
                assert(users.drop_last()[i] == users[i]);
            }
        }
    }
}

/// The message of the failure to insert an account whose stream key is in
/// use.
pub const KEY_IN_USE: &'static str = "UNIQUE constraint failed: users.stream_key";

/// The message of the failure to insert a session whose token is in use.
pub const TOKEN_IN_USE: &'static str = "UNIQUE constraint failed: sessions.session";

impl Store {
    #[verifier::type_invariant]
    spec fn keeps_consistent(self) -> bool {
        consistent(self@)
    }

    /// A store without accounts and without sessions.
    pub fn new() -> (db: Store)
        ensures
            db@.users.len() == 0,
            db@.sessions.len() == 0,
            consistent(db@),
    {
        Store { users: Vec::new(), sessions: Vec::new() }
    }

    /// All accounts, in the order in which they were registered.
    pub fn list_users(&self) -> (users: Vec<User>)
        ensures
            accounts(users@) == self@.users,
            consistent(self@),
    {
        proof {
            use_type_invariant(self);
        }
        let mut users: Vec<User> = Vec::new();
        let mut i: usize = 0;
        while i < self.users.len()
            invariant
                i <= self.users.len(),
                accounts(users@) == accounts(self.users@).take(i as int),
            decreases self.users.len() - i,
        {
            let ghost before = accounts(users@);
            users.push(self.users[i].clone());
            assert(accounts(users@) =~= before.push(self.users@[i as int]@));
            assert(accounts(self.users@).take(i + 1) =~= accounts(self.users@).take(i as int).push(
                self.users@[i as int]@,
            ));
            i += 1;
        }
        assert(accounts(self.users@).take(i as int) =~= accounts(self.users@));
        users
    }

    /// Hands out the accounts and leaves none behind.
    fn take_users(&mut self) -> (users: Vec<User>)
        ensures
            accounts(users@) == old(self)@.users,
            final(self)@.users.len() == 0,
            final(self)@.sessions == old(self)@.sessions,
            consistent(old(self)@),
    {
        proof {
            use_type_invariant(&*self);
            assert(consistent(self@));
        }
        let mut users: Vec<User> = Vec::new();
        let ghost kept = self@.sessions;
        assert(consistent(StoreView { users: accounts(users@), sessions: kept }));
        std::mem::swap(&mut self.users, &mut users);
        users
    }

    /// Takes `users` for the accounts.
    fn put_users(&mut self, users: Vec<User>)
        requires
            consistent(StoreView { users: accounts(users@), sessions: old(self)@.sessions }),
        ensures
            final(self)@.users == accounts(users@),
            final(self)@.sessions == old(self)@.sessions,
            consistent(final(self)@),
    {
        let mut users = users;
        std::mem::swap(&mut self.users, &mut users);
    }

    /// Hands out the sessions and leaves none behind.
    fn take_sessions(&mut self) -> (sessions: Vec<Session>)
        ensures
            open_sessions(sessions@) == old(self)@.sessions,
            final(self)@.sessions.len() == 0,
            final(self)@.users == old(self)@.users,
            consistent(old(self)@),
    {
        proof {
            use_type_invariant(&*self);
            assert(consistent(self@));
        }
        let mut sessions: Vec<Session> = Vec::new();
        let ghost kept = self@.users;
        assert(consistent(StoreView { users: kept, sessions: open_sessions(sessions@) }));
        std::mem::swap(&mut self.sessions, &mut sessions);
        sessions
    }

    /// Takes `sessions` for the open sessions.
    fn put_sessions(&mut self, sessions: Vec<Session>)
        requires
            consistent(StoreView { users: old(self)@.users, sessions: open_sessions(sessions@) }),
        ensures
            final(self)@.sessions == open_sessions(sessions@),
            final(self)@.users == old(self)@.users,
            consistent(final(self)@),
    {
        let mut sessions = sessions;
        std::mem::swap(&mut self.sessions, &mut sessions);
    }

    /// Adds an account. A name that is taken and a stream key that is in use
    /// are refused, and the store stays as it is.
    pub fn insert_user(&mut self, user: User) -> (r: Result<(), OMError>)
        ensures
            match r {
                Ok(()) => final(self)@.users == old(self)@.users.push(user@) && final(self)@.sessions
                    == old(self)@.sessions,
                Err(e) => final(self)@ == old(self)@ && e@ == (if account_named(
                    old(self)@.users,
                    user@.username,
                ) is Some {
                    OMErrorView::NameTaken
                } else {
                    OMErrorView::SqlxError(KEY_IN_USE@)
                }),
            },
            r is Ok <==> account_named(old(self)@.users, user@.username) is None && account_with_key(
                old(self)@.users,
                user@.stream_key,
            ) is None,
            consistent(old(self)@),
            consistent(final(self)@),
    {
        proof {
            use_type_invariant(&*self);
        }
        if position(&self.users, Lookup::Name, user.username.as_str()).is_some() {
            return Err(OMError::NameTaken);
        }
        if position(&self.users, Lookup::Key, user.stream_key.as_str()).is_some() {
            return Err(OMError::SqlxError(String::from_str(KEY_IN_USE)));
        }
        let mut users = self.take_users();
        proof {
            let before = accounts(users@);
            lemma_none_wanted(before, sought(Lookup::Name, user@.username));
            lemma_none_wanted(before, sought(Lookup::Key, user@.stream_key));
            assert(accounts(users@.push(user)) =~= before.push(user@));
            assert forall|i: int| 0 <= i < before.len() implies !same_name(
                (#[trigger] before[i]).username,
                user@.username,
            ) by {
                assert(!sought(Lookup::Name, user@.username)(before[i]));
            }
            assert forall|i: int| 0 <= i < before.len() implies (#[trigger] before[i]).stream_key
                != user@.stream_key by {
                assert(!sought(Lookup::Key, user@.stream_key)(before[i]));
            }
        }
        users.push(user);
        self.put_users(users);
        Ok(())
    }
}

/// A change to one field of an account.
#[derive(Debug)]
pub enum Change {
    /// A new display name.
    DisplayName(String),
    /// A new stream title.
    StreamTitle(String),
    /// A new encoded password hash.
    Password(String),
    /// A new permission list.
    Permissions(String),
}

/// Mathematical value of a [`Change`].
pub enum ChangeView {
    DisplayName(Seq<char>),
    StreamTitle(Seq<char>),
    Password(Seq<char>),
    Permissions(Seq<char>),
}

impl View for Change {
    type V = ChangeView;

    open spec fn view(&self) -> ChangeView {
        match self {
            Change::DisplayName(text) => ChangeView::DisplayName(text@),
            Change::StreamTitle(text) => ChangeView::StreamTitle(text@),
            Change::Password(text) => ChangeView::Password(text@),
            Change::Permissions(text) => ChangeView::Permissions(text@),
        }
    }
}

/// The account `user` after `change`: one field is new, the username and the
/// stream key never are.
pub open spec fn changed(user: UserView, change: ChangeView) -> UserView {
    match change {
        ChangeView::DisplayName(text) => UserView { display_name: text, ..user },
        ChangeView::StreamTitle(text) => UserView { stream_title: Some(text), ..user },
        ChangeView::Password(text) => UserView { password: text, ..user },
        ChangeView::Permissions(text) => UserView { permissions: Some(text), ..user },
    }
}

/// The accounts after `change` was made to each that is called `username`,
/// letter for letter.
pub open spec fn updated(
    users: Seq<UserView>,
    username: Seq<char>,
    change: ChangeView,
) -> Seq<UserView> {
    users.map_values(
        |u: UserView|
            if u.username == username {
                changed(u, change)
            } else {
                u
            },
    )
}

/// The account `user` with `change` made to it.
fn apply(user: &User, change: &Change) -> (after: User)
    ensures
        after@ == changed(user@, change@),
{
    let mut after = user.clone();
    match change {
        Change::DisplayName(text) => {
            after.display_name = text.clone();
        },
        Change::StreamTitle(text) => {
            after.stream_title = Some(text.clone());
        },
        Change::Password(text) => {
            after.password = text.clone();
        },
        Change::Permissions(text) => {
            after.permissions = Some(text.clone());
        },
    }
    after

}

impl Store {
    /// Makes `change` to the account called `username`, letter for letter.
    /// Without such an account nothing happens.
    pub fn update(&mut self, username: &str, change: &Change)
        ensures
            final(self)@.users == updated(old(self)@.users, username@, change@),
            final(self)@.sessions == old(self)@.sessions,
            consistent(old(self)@),
            consistent(final(self)@),
    {
        let at = position(&self.users, Lookup::Username, username);
        let mut users = self.take_users();
        let ghost before = accounts(users@);
        match at {
            Some(i) => {
                let after = apply(&users[i], change);
                users.set(i, after);
                proof {
                    let now = accounts(users@);
                    assert forall|j: int| 0 <= j < before.len() && j != i implies (
                    #[trigger] before[j]).username != username@ by {
                        lemma_same_name_is_mutual(before[j].username, before[i as int].username);
                        if j < i {
                            assert(!same_name(before[j].username, before[i as int].username));
                        } else {
                            assert(!same_name(before[i as int].username, before[j].username));
                        }
                    }
                    assert(now =~= updated(before, username@, change@));
                    assert forall|j: int| 0 <= j < now.len() implies (#[trigger] now[j]).username
                        == before[j].username && now[j].stream_key == before[j].stream_key by {}
                    assert(consistent(StoreView { users: now, sessions: self@.sessions }));
                }
            },
            None => {
                proof {
                    lemma_none_wanted(before, sought(Lookup::Username, username@));
                    assert forall|j: int| 0 <= j < before.len() implies (
                    #[trigger] before[j]).username != username@ by {
                        assert(!sought(Lookup::Username, username@)(before[j]));
                    }
                    assert(before =~= updated(before, username@, change@));
                }
            },
        }
        self.put_users(users);
    }
}

/// The place of the first of `sessions` that carries `token`.
fn session_position(sessions: &Vec<Session>, token: &str) -> (at: Option<usize>)
    ensures
        match at {
            Some(i) => i < sessions.len() && sessions@[i as int]@.session == token@ && session_with(
                open_sessions(sessions@),
                token@,
            ) == Some(sessions@[i as int]@),
            None => session_with(open_sessions(sessions@), token@) is None,
        },
{
    let ghost all = open_sessions(sessions@);
    let mut i: usize = 0;
    while i < sessions.len()
        invariant
            i <= sessions.len(),
            all == open_sessions(sessions@),
            session_with(all.take(i as int), token@) is None,
        decreases sessions.len() - i,
    {
        proof {
            assert(all.take(i + 1).drop_last() =~= all.take(i as int));
        }
        if same_text(sessions[i].session.as_str(), token) {
            proof {
                lemma_session_stays(all.take(i + 1), all, token@);
            }
            return Some(i);
        }
        i += 1;
    }
    assert(all.take(i as int) =~= all);
    None
}

/// The session found first in the front of a run is found first in the run.
proof fn lemma_session_stays(front: Seq<SessionView>, sessions: Seq<SessionView>, token: Seq<char>)
    requires
        front.len() <= sessions.len(),
        front == sessions.take(front.len() as int),
        session_with(front, token) is Some,
    ensures
        session_with(sessions, token) == session_with(front, token),
    decreases sessions.len() - front.len(),
{
    if front.len() < sessions.len() {
        let longer = sessions.take(front.len() as int + 1);
        assert(longer.drop_last() =~= front);
        lemma_session_stays(longer, sessions, token);
    } else {
        assert(front =~= sessions);
    }
}

/// Where no session carries the token, none is found, and the other way
/// round.
pub proof fn lemma_no_session(sessions: Seq<SessionView>, token: Seq<char>)
    ensures
        session_with(sessions, token) is None <==> forall|i: int|
            0 <= i < sessions.len() ==> (#[trigger] sessions[i]).session != token,
        session_with(sessions, token) matches Some(s) ==> s.session == token,
    decreases sessions.len(),
{
    if sessions.len() > 0 {
        let front = sessions.drop_last();
        lemma_no_session(front, token);
        if session_with(sessions, token) is None {
            assert forall|i: int| 0 <= i < sessions.len() implies (
            #[trigger] sessions[i]).session != token by {
                if i < front.len() {
                    assert(front[i] == sessions[i]);
                }
            }
        } else if session_with(front, token) is None {
            assert(sessions[sessions.len() - 1].session == token);
        } else {
            let i = choose|i: int| 0 <= i < front.len() && (#[trigger] front[i]).session == token;
            assert(sessions[i] == front[i]);
        }
    }
}

/// Nothing is lost of a run without the token, and nothing of it is left in
/// any other.
pub proof fn lemma_without_session(sessions: Seq<SessionView>, token: Seq<char>)
    ensures
        session_with(without_session(sessions, token), token) is None,
        session_with(sessions, token) is None ==> without_session(sessions, token) == sessions,
        without_session(without_session(sessions, token), token) == without_session(
            sessions,
            token,
        ),
    decreases sessions.len(),
{
    if sessions.len() > 0 {
        let front = sessions.drop_last();
        let last = sessions.last();
        lemma_without_session(front, token);
        let kept = without_session(front, token);
        if last.session != token {
            assert(kept.push(last).drop_last() =~= kept);
            if session_with(sessions, token) is None {
                assert(kept.push(last) =~= sessions);
            }
        }
    }
}

/// Where tokens are unique, taking out the sessions with a token is taking
/// out the one that carries it.
proof fn lemma_without_the_one(sessions: Seq<SessionView>, token: Seq<char>, at: int)
    requires
        0 <= at < sessions.len(),
        sessions[at].session == token,
        forall|i: int, j: int|
            0 <= i < j < sessions.len() ==> (#[trigger] sessions[i]).session != (
            #[trigger] sessions[j]).session,
    ensures
        without_session(sessions, token) == sessions.remove(at),
    decreases sessions.len(),
{
    let front = sessions.drop_last();
    let last = sessions.last();
    assert forall|i: int, j: int| 0 <= i < j < front.len() implies (#[trigger] front[i]).session
        != (#[trigger] front[j]).session by {
        assert(front[i] == sessions[i] && front[j] == sessions[j]);
    }
    if at == sessions.len() - 1 {
        assert forall|i: int| 0 <= i < front.len() implies (#[trigger] front[i]).session
            != token by {
            assert(front[i] == sessions[i]);
        }
        lemma_no_session(front, token);
        lemma_without_session(front, token);
        assert(sessions.remove(at) =~= front);
    } else {
        assert(sessions[at].session != sessions[sessions.len() - 1].session);
        lemma_without_the_one(front, token, at);
        assert(front.remove(at).push(last) =~= sessions.remove(at));
    }
}

impl Store {
    /// Opens a session for `owner` under `token`. A token that is in use is
    /// refused, and the store stays as it is.
    pub fn insert_session(&mut self, token: String, owner: String, now: u64) -> (r: Result<
        (),
        OMError,
    >)
        ensures
            final(self)@.users == old(self)@.users,
            match r {
                Ok(()) => final(self)@.sessions == old(self)@.sessions.push(
                    SessionView { session: token@, user_id: owner@, created_at: now },
                ),
                Err(e) => final(self)@.sessions == old(self)@.sessions && e@
                    == OMErrorView::SqlxError(TOKEN_IN_USE@),
            },
            r is Ok <==> session_with(old(self)@.sessions, token@) is None,
            consistent(old(self)@),
            consistent(final(self)@),
    {
        proof {
            use_type_invariant(&*self);
        }
        if session_position(&self.sessions, token.as_str()).is_some() {
            return Err(OMError::SqlxError(String::from_str(TOKEN_IN_USE)));
        }
        let mut sessions = self.take_sessions();
        let session = Session { session: token, user_id: owner, created_at: now };
        proof {
            let before = open_sessions(sessions@);
            lemma_no_session(before, session@.session);
            assert(open_sessions(sessions@.push(session)) =~= before.push(session@));
        }
        sessions.push(session);
        self.put_sessions(sessions);
        Ok(())
    }

    /// Closes the session that carries `token`. Without such a session
    /// nothing happens.
    pub fn delete_session(&mut self, token: &str)
        ensures
            final(self)@.users == old(self)@.users,
            final(self)@.sessions == without_session(old(self)@.sessions, token@),
            consistent(old(self)@),
            consistent(final(self)@),
    {
        let at = session_position(&self.sessions, token);
        let mut sessions = self.take_sessions();
        let ghost before = open_sessions(sessions@);
        match at {
            Some(i) => {
                let _ = sessions.remove(i);
                proof {
                    let now = open_sessions(sessions@);
                    assert(now =~= before.remove(i as int));
                    lemma_without_the_one(before, token@, i as int);
                    assert forall|a: int, b: int| 0 <= a < b < now.len() implies (
                    #[trigger] now[a]).session != (#[trigger] now[b]).session by {
                        let a0 = if a < i { a } else { a + 1 };
                        let b0 = if b < i { b } else { b + 1 };
                        assert(now[a] == before[a0] && now[b] == before[b0]);
                    }
                }
            },
            None => {
                proof {
                    lemma_without_session(before, token@);
                }
            },
        }
        self.put_sessions(sessions);
    }
}

impl Store {
    /// The account that owns the stream key `key`.
    pub fn find_by_key(&self, key: &str) -> (user: Option<User>)
        ensures
            found(user) == account_with_key(self@.users, key@),
    {
        match position(&self.users, Lookup::Key, key) {
            Some(i) => Some(self.users[i].clone()),
            None => None,
        }
    }

    /// The account whose username is `username`, letter for letter.
    pub fn find_by_username(&self, username: &str) -> (user: Option<User>)
        ensures
            found(user) == account_called(self@.users, username@),
    {
        match position(&self.users, Lookup::Username, username) {
            Some(i) => Some(self.users[i].clone()),
            None => None,
        }
    }

    /// The open session that carries `token`.
    pub fn find_session(&self, token: &str) -> (session: Option<Session>)
        ensures
            match session {
                Some(s) => session_with(self@.sessions, token@) == Some(s@),
                None => session_with(self@.sessions, token@) is None,
            },
    {
        match session_position(&self.sessions, token) {
            Some(i) => Some(self.sessions[i].clone()),
            None => None,
        }
    }
}

impl User {
    /// The account registered under `username`, whatever the case of its
    /// letters.
    pub fn from_name(username: &str, db: &Store) -> (user: Option<User>)
        ensures
            found(user) == account_named(db@.users, username@),
    {
        match position(&db.users, Lookup::Name, username) {
            Some(i) => Some(db.users[i].clone()),
            None => None,
        }
    }

    /// The account that the session `token` speaks for.
    pub fn from_session(token: &str, db: &Store) -> (user: Option<User>)
        ensures
            found(user) == session_owner(db@, token@),
    {
        match db.find_session(token) {
            Some(session) => db.find_by_username(session.user_id.as_str()),
            None => None,
        }
    }

    /// The account that a request speaks for, given the value of its session
    /// cookie, if it carries one. A request without the cookie, or with one
    /// that no open session carries, has an invalid session.
    pub fn from_req(db: &Store, cookie: Option<&str>) -> (r: Result<User, OMError>)
        ensures
            match r {
                Ok(user) => cookie matches Some(token) && session_owner(db@, token@) == Some(
                    user@,
                ),
                Err(e) => e@ == OMErrorView::InvalidSession && (cookie matches Some(token)
                    ==> session_owner(db@, token@) is None),
            },
    {
        match cookie {
            Some(token) => match User::from_session(token, db) {
                Some(user) => Ok(user),
                None => Err(OMError::InvalidSession),
            },
            None => Err(OMError::InvalidSession),
        }
    }
}

/// Where nothing is wanted, nothing is found.
pub proof fn lemma_all_unwanted(users: Seq<UserView>, wanted: spec_fn(UserView) -> bool)
    requires
        forall|i: int| 0 <= i < users.len() ==> !wanted(#[trigger] users[i]),
    ensures
        first_account(users, wanted) is None,
    decreases users.len(),
{
    if users.len() > 0 {
        let front = users.drop_last();
        assert forall|i: int| 0 <= i < front.len() implies !wanted(#[trigger] front[i]) by {
            assert(front[i] == users[i]);
        }
        lemma_all_unwanted(front, wanted);
        assert(!wanted(users[users.len() - 1]));
    }
}

/// The first account that is wanted is the one that is found.
pub proof fn lemma_first_wanted(users: Seq<UserView>, wanted: spec_fn(UserView) -> bool, at: int)
    requires
        0 <= at < users.len(),
        wanted(users[at]),
        forall|j: int| 0 <= j < at ==> !wanted(#[trigger] users[j]),
    ensures
        first_account(users, wanted) == Some(users[at]),
    decreases users.len(),
{
    let front = users.drop_last();
    if at == users.len() - 1 {
        assert forall|i: int| 0 <= i < front.len() implies !wanted(#[trigger] front[i]) by {
            assert(front[i] == users[i]);
        }
        lemma_all_unwanted(front, wanted);
    } else {
        assert(front[at] == users[at]);
        assert forall|j: int| 0 <= j < at implies !wanted(#[trigger] front[j]) by {
            assert(front[j] == users[j]);
        }
        lemma_first_wanted(front, wanted, at);
    }
}

/// In a consistent store every account is the one that is found under its
/// own name, under its own username and under its own stream key.
pub proof fn lemma_account_is_found(store: StoreView, at: int)
    requires
        consistent(store),
        0 <= at < store.users.len(),
    ensures
        account_named(store.users, store.users[at].username) == Some(store.users[at]),
        account_called(store.users, store.users[at].username) == Some(store.users[at]),
        account_with_key(store.users, store.users[at].stream_key) == Some(store.users[at]),
{
    let users = store.users;
    let user = users[at];
    lemma_same_name_is_mutual(user.username, user.username);
    assert forall|j: int| 0 <= j < at implies !same_name(
        (#[trigger] users[j]).username,
        user.username,
    ) && users[j].username != user.username && users[j].stream_key != user.stream_key by {
        assert(!same_name(users[j].username, users[at].username));
        assert(users[j].stream_key != users[at].stream_key);
    }
    lemma_first_wanted(users, |u: UserView| same_name(u.username, user.username), at);
    lemma_first_wanted(users, |u: UserView| u.username == user.username, at);
    lemma_first_wanted(users, |u: UserView| u.stream_key == user.stream_key, at);
}

/// What is found is the first account of the store that is wanted.
pub proof fn lemma_found_is_wanted(users: Seq<UserView>, wanted: spec_fn(UserView) -> bool) -> (at:
    int)
    requires
        first_account(users, wanted) is Some,
    ensures
        0 <= at < users.len(),
        first_account(users, wanted) == Some(users[at]),
        wanted(users[at]),
        forall|j: int| 0 <= j < at ==> !wanted(#[trigger] users[j]),
    decreases users.len(),
{
    let front = users.drop_last();
    if first_account(front, wanted) is Some {
        let at = lemma_found_is_wanted(front, wanted);
        assert(front[at] == users[at]);
        assert forall|j: int| 0 <= j < at implies !wanted(#[trigger] users[j]) by {
            assert(front[j] == users[j]);
        }
        at
    } else {
        lemma_none_wanted(front, wanted);
        assert forall|j: int| 0 <= j < users.len() - 1 implies !wanted(#[trigger] users[j]) by {
            assert(front[j] == users[j]);
        }
        users.len() - 1
    }
}

/// Taking sessions out leaves the tokens of the others as distinct as they
/// were.
pub proof fn lemma_without_session_keeps_tokens_apart(sessions: Seq<SessionView>, token: Seq<char>)
    requires
        forall|i: int, j: int|
            0 <= i < j < sessions.len() ==> (#[trigger] sessions[i]).session != (
            #[trigger] sessions[j]).session,
    ensures
        forall|i: int, j: int|
            0 <= i < j < without_session(sessions, token).len() ==> (#[trigger] without_session(
                sessions,
                token,
            )[i]).session != (#[trigger] without_session(sessions, token)[j]).session,
{
    let kept = without_session(sessions, token);
    if session_with(sessions, token) is None {
        lemma_without_session(sessions, token);
    } else {
        lemma_no_session(sessions, token);
        let at = choose|at: int| 0 <= at < sessions.len() && (#[trigger] sessions[at]).session == token;
        lemma_without_the_one(sessions, token, at);
        assert forall|i: int, j: int| 0 <= i < j < kept.len() implies (#[trigger] kept[i]).session
            != (#[trigger] kept[j]).session by {
            let i0 = if i < at { i } else { i + 1 };
            let j0 = if j < at { j } else { j + 1 };
            assert(kept[i] == sessions[i0] && kept[j] == sessions[j0]);
        }
    }
}

/// Being the same name is mutual.
pub proof fn lemma_same_name_is_mutual(a: Seq<char>, b: Seq<char>)
    ensures
        same_name(a, b) == same_name(b, a),
        same_name(a, a),
{
}

} // verus!
