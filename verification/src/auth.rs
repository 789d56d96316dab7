//! The authorization policy: which capabilities a permission list grants.
//!
//! A permission list is a text of capability tokens separated by commas or
//! spaces. An account holds a capability if its list names that very token, or
//! names the administrator token, which stands for all of them.

use vstd::prelude::*;
use vstd::string::*;
use crate::db::{session_owner, Store};
use crate::objects::User;
use crate::text::to_chars;

verus! {

/// The capability to publish a stream.
pub const CAN_STREAM: &'static str = "CAN_STREAM";

/// The administrator token: whoever holds it holds every capability.
pub const IS_ADMIN: &'static str = "IS_ADMIN";

/// Commas and spaces separate the tokens of a permission list.
pub open spec fn is_separator(c: char) -> bool {
    c == ',' || c == ' '
}

/// `list[start..end]` is a token: a non-empty run without separators that
/// neither its left nor its right neighbour could extend.
pub open spec fn token_at(list: Seq<char>, start: int, end: int) -> bool {
    &&& 0 <= start < end <= list.len()
    &&& forall|k: int| start <= k < end ==> !is_separator(#[trigger] list[k])
    &&& (start == 0 || is_separator(list[start - 1]))
    &&& (end == list.len() || is_separator(list[end]))
}

/// `token` is one of the tokens of `list`, whole and exact.
pub open spec fn names(list: Seq<char>, token: Seq<char>) -> bool {
    exists|start: int, end: int|
        #![trigger token_at(list, start, end)]
        token_at(list, start, end) && list.subrange(start, end) == token
}

/// Whether an account with these permissions holds `capability`: its list
/// names the capability or the administrator token. An account without a list
/// holds nothing.
pub open spec fn grants(permissions: Option<Seq<char>>, capability: Seq<char>) -> bool {
    match permissions {
        Some(list) => names(list, capability) || names(list, IS_ADMIN@),
        None => false,
    }
}

fn separator(c: char) -> (yes: bool)
    ensures
        yes == is_separator(c),
{
    c == ',' || c == ' '
}

/// Whether `list[start..end]` spells `token`.
fn spells(list: &Vec<char>, start: usize, end: usize, token: &Vec<char>) -> (yes: bool)
    requires
        start <= end <= list.len(),
    ensures
        yes == (list@.subrange(start as int, end as int) == token@),
{
    if end - start != token.len() {
        return false;
    }
    let mut k: usize = 0;
    while k < token.len()
        invariant
            start <= end <= list.len(),
            end - start == token.len(),
            k <= token.len(),
            forall|j: int| 0 <= j < k ==> list@[start + j] == token@[j],
        decreases token.len() - k,
    {
        if list[start + k] != token[k] {
            assert(list@.subrange(start as int, end as int)[k as int] != token@[k as int]);
            return false;
        }
        k += 1;
    }
    assert(list@.subrange(start as int, end as int) =~= token@);
    true
}

/// Whether the permission list `list` names `token`.
pub fn list_names(list: &Vec<char>, token: &Vec<char>) -> (yes: bool)
    ensures
        yes == names(list@, token@),
{
    let n: usize = list.len();
    let mut i: usize = 0;
    while i < n
        invariant
            n == list.len(),
            i <= n,
            i == 0 || i == n || is_separator(list@[i - 1]) || is_separator(list@[i as int]),
            forall|s: int, e: int|
                #![trigger token_at(list@, s, e)]
                token_at(list@, s, e) && s < i ==> list@.subrange(s, e) != token@,
        decreases n - i,
    {
        if separator(list[i]) {
            i += 1;
        } else {
            let start: usize = i;
            let mut end: usize = i + 1;
            while end < n && !separator(list[end])
                invariant
                    n == list.len(),
                    start < end <= n,
                    forall|k: int| start <= k < end ==> !is_separator(#[trigger] list@[k]),
                decreases n - end,
            {
                end += 1;
            }
            assert(token_at(list@, start as int, end as int));
            if spells(list, start, end, token) {
                return true;
            }
            assert forall|s: int, e: int|
                #![trigger token_at(list@, s, e)]
                token_at(list@, s, e) && s < end implies list@.subrange(s, e) != token@ by {
                if s >= start {
                    if s > start {
                        assert(!is_separator(list@[s - 1]));
                    }
                    if e < end {
                        assert(!is_separator(list@[e]));
                    }
                    if e > end {
                        assert(!is_separator(list@[end as int]));
                    }
                    assert(s == start && e == end);
                }
            }
            i = end;
        }
    }
    assert forall|s: int, e: int|
        #![trigger token_at(list@, s, e)]
        token_at(list@, s, e) implies list@.subrange(s, e) != token@ by {}
    false
}

/// Whether the permission list `permissions` grants `capability`.
pub fn holds_capability(permissions: &Option<String>, capability: &str) -> (yes: bool)
    ensures
        yes == grants(permissions.deep_view(), capability@),
{
    match permissions {
        None => false,
        Some(text) => {
            let list = to_chars(text.as_str());
            let wanted = to_chars(capability);
            if list_names(&list, &wanted) {
                true
            } else {
                let admin = to_chars(IS_ADMIN);
                list_names(&list, &admin)
            }
        },
    }
}

/// A token of `list` ends at `end`.
pub open spec fn token_ends(list: Seq<char>, end: int) -> bool {
    exists|start: int| token_at(list, start, end)
}

/// The tokens of `list` that end at or before `end`, in the order in which
/// they stand.
pub open spec fn tokens_before(list: Seq<char>, end: int) -> Seq<Seq<char>>
    decreases end,
{
    if end <= 0 {
        Seq::empty()
    } else if token_ends(list, end) {
        let start = choose|start: int| token_at(list, start, end);
        tokens_before(list, end - 1).push(list.subrange(start, end))
    } else {
        tokens_before(list, end - 1)
    }
}

/// The tokens of the permission list `list`, in the order in which they
/// stand.
pub open spec fn tokens(list: Seq<char>) -> Seq<Seq<char>> {
    tokens_before(list, list.len() as int)
}

/// Where no token ends, the tokens stay the same.
proof fn lemma_no_token_ends(list: Seq<char>, from: int, to: int)
    requires
        0 <= from <= to,
        forall|end: int| from < end <= to ==> !token_ends(list, end),
    ensures
        tokens_before(list, to) == tokens_before(list, from),
    decreases to - from,
{
    if from < to {
        lemma_no_token_ends(list, from, to - 1);
    }
}

/// A permission list names exactly its tokens.
pub proof fn lemma_tokens_are_named(list: Seq<char>, token: Seq<char>)
    ensures
        names(list, token) <==> tokens(list).contains(token),
{
    lemma_tokens_before(list, list.len() as int, token);
    if names(list, token) {
        let (start, end) = choose|start: int, end: int|
            #![trigger token_at(list, start, end)]
            token_at(list, start, end) && list.subrange(start, end) == token;
        assert(token_at(list, start, end) && end <= list.len() && list.subrange(start, end)
            == token);
    }
}

/// The tokens that end at or before `upto` are those that stand there.
proof fn lemma_tokens_before(list: Seq<char>, upto: int, token: Seq<char>)
    ensures
        tokens_before(list, upto).contains(token) <==> exists|start: int, end: int|
            #![trigger token_at(list, start, end)]
            token_at(list, start, end) && end <= upto && list.subrange(start, end) == token,
    decreases upto,
{
    if upto > 0 {
        lemma_tokens_before(list, upto - 1, token);
        let front = tokens_before(list, upto - 1);
        if token_ends(list, upto) {
            let start = choose|start: int| token_at(list, start, upto);
            let last = list.subrange(start, upto);
            assert(tokens_before(list, upto) == front.push(last));
            assert(front.push(last).drop_last() =~= front);
            if tokens_before(list, upto).contains(token) {
                if token != last {
                    let i = choose|i: int|
                        0 <= i < front.push(last).len() && front.push(last)[i] == token;
                    assert(front[i] == token);
                } else {
                    assert(token_at(list, start, upto));
                }
            }
            if exists|s: int, e: int|
                #![trigger token_at(list, s, e)]
                token_at(list, s, e) && e <= upto && list.subrange(s, e) == token {
                let (s, e) = choose|s: int, e: int|
                    #![trigger token_at(list, s, e)]
                    token_at(list, s, e) && e <= upto && list.subrange(s, e) == token;
                if e == upto {
                    lemma_token_start(list, s, start, upto);
                    assert(front.push(last)[front.len() as int] == token);
                } else {
                    assert(token_at(list, s, e) && e <= upto - 1);
                    let i = choose|i: int| 0 <= i < front.len() && front[i] == token;
                    assert(front.push(last)[i] == token);
                }
            }
        } else {
            if exists|s: int, e: int|
                #![trigger token_at(list, s, e)]
                token_at(list, s, e) && e <= upto && list.subrange(s, e) == token {
                let (s, e) = choose|s: int, e: int|
                    #![trigger token_at(list, s, e)]
                    token_at(list, s, e) && e <= upto && list.subrange(s, e) == token;
                assert(token_at(list, s, e) && e <= upto - 1);
            }
        }
    } else {
        assert(tokens_before(list, upto) =~= Seq::<Seq<char>>::empty());
    }
}

/// Only one token ends at a place.
proof fn lemma_token_start(list: Seq<char>, a: int, b: int, end: int)
    requires
        token_at(list, a, end),
        token_at(list, b, end),
    ensures
        a == b,
{
    if a < b {
        assert(!is_separator(list[b - 1]));
    }
    if b < a {
        assert(!is_separator(list[a - 1]));
    }
}

/// The tokens of the permission list `list`, in the order in which they
/// stand.
pub fn split_tokens(list: &str) -> (found: Vec<String>)
    ensures
        found.deep_view() == tokens(list@),
{
    let chars = to_chars(list);
    let n: usize = chars.len();
    let mut found: Vec<String> = Vec::new();
    let mut i: usize = 0;
    assert(found.deep_view() =~= tokens_before(list@, 0));
    while i < n
        invariant
            n == chars.len(),
            chars@ == list@,
            i <= n,
            i == 0 || i == n || is_separator(chars@[i - 1]) || is_separator(chars@[i as int]),
            found.deep_view() == tokens_before(list@, i as int),
        decreases n - i,
    {
        if separator(chars[i]) {
            proof {
                let next = i + 1;
                if token_ends(list@, next) {
                    let s = choose|s: int| token_at(list@, s, next);
                    assert(!is_separator(list@[i as int]));
                }
            }
            i += 1;
        } else {
            let start: usize = i;
            let mut end: usize = i + 1;
            while end < n && !separator(chars[end])
                invariant
                    n == chars.len(),
                    start < end <= n,
                    forall|k: int| start <= k < end ==> !is_separator(#[trigger] chars@[k]),
                decreases n - end,
            {
                end += 1;
            }
            let token = String::from_str(list.substring_char(start, end));
            proof {
                assert(token_at(list@, start as int, end as int));
                assert forall|e: int| start < e <= end - 1 implies !token_ends(list@, e) by {
                    if token_ends(list@, e) {
                        let s = choose|s: int| token_at(list@, s, e);
                        assert(!is_separator(list@[e]));
                    }
                }
                lemma_no_token_ends(list@, start as int, end - 1);
                assert(token_ends(list@, end as int));
                let s = choose|s: int| token_at(list@, s, end as int);
                lemma_token_start(list@, s, start as int, end as int);
                assert(found.deep_view().push(token@) =~= tokens_before(list@, end as int));
            }
            let ghost before = found.deep_view();
            found.push(token);
            assert(found.deep_view() =~= before.push(token@));
            i = end;
        }
    }
    found
}

/// The capability tokens of the account that a request speaks for, given
/// the value of its session cookie, if it carries one. `None` if the request
/// speaks for no account, or for one without a permission list.
pub fn extract_permissions(db: &Store, cookie: Option<&str>) -> (list: Option<Vec<String>>)
    ensures
        list.deep_view() == (match cookie {
            Some(token) => match session_owner(db@, token@) {
                Some(user) => match user.permissions {
                    Some(text) => Some(tokens(text)),
                    None => None,
                },
                None => None,
            },
            None => None,
        }),
{
    match User::from_req(db, cookie) {
        Ok(user) => user.permission_vec(),
        Err(_) => None,
    }
}

} // verus!
