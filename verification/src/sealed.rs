//! Self-contained sessions: a token that carries the username and the time
//! of expiry, sealed under a key that only the server holds.
//!
//! The store keeps no record of such a session. Whoever presents a token that
//! opens under the key, before the time that it names, speaks for the account
//! that it names, as long as that account exists. Logging out is the client's
//! matter: the server hands out the cookie that removes the token.

use cookie::{Cookie, CookieJar, Key};
use vstd::prelude::*;
use vstd::string::*;
use crate::db::{account_called, found, Store};
use crate::objects::User;
use crate::session::{
    expiry, issued_cookie, session_cookie, SessionCookie, SESSION_COOKIE, SESSION_TTL,
};
use crate::text::{text_of, to_chars};

verus! {

/// The character that writes the digit `d`.
pub open spec fn digit_char(d: nat) -> char {
    ('0' as u8 + d as u8) as char
}

/// Whether `c` writes a digit.
pub open spec fn is_digit(c: char) -> bool {
    '0' <= c <= '9'
}

/// The digit that `c` writes.
pub open spec fn digit_value(c: char) -> nat {
    (c as u8 - '0' as u8) as nat
}

/// The decimal numeral of `n`, without leading zeros.
pub open spec fn numeral(n: nat) -> Seq<char>
    decreases n,
{
    if n < 10 {
        seq![digit_char(n)]
    } else {
        numeral(n / 10).push(digit_char(n % 10))
    }
}

/// The number that the digits of `text` write in decimal.
pub open spec fn number(text: Seq<char>) -> nat
    decreases text.len(),
{
    if text.len() == 0 {
        0
    } else {
        number(text.drop_last()) * 10 + digit_value(text.last())
    }
}

/// Every character of `text` writes a digit.
pub open spec fn all_digits(text: Seq<char>) -> bool {
    forall|i: int| 0 <= i < text.len() ==> is_digit(#[trigger] text[i])
}

/// A numeral is a run of digits, at least one, that writes its number.
pub proof fn lemma_numeral(n: nat)
    ensures
        numeral(n).len() >= 1,
        all_digits(numeral(n)),
        number(numeral(n)) == n,
    decreases n,
{
    if n < 10 {
        assert(numeral(n).drop_last() =~= Seq::<char>::empty());
        assert(number(numeral(n).drop_last()) == 0);
    } else {
        lemma_numeral(n / 10);
        assert(numeral(n).drop_last() =~= numeral(n / 10));
    }
}

/// The decimal numeral of `n`.
pub fn write_number(n: u64) -> (text: String)
    ensures
        text@ == numeral(n as nat),
{
    // The digits from the last to the first.
    let mut reversed: Vec<char> = Vec::new();
    let mut rest: u64 = n;
    assert(numeral(n as nat) =~= numeral(rest as nat) + reversed@.reverse());
    while rest >= 10
        invariant
            numeral(n as nat) == numeral(rest as nat) + reversed@.reverse(),
        decreases rest,
    {
        let digit: u8 = (rest % 10) as u8;
        let c: char = (48u8 + digit) as char;
        let ghost before = reversed@;
        reversed.push(c);
        proof {
            assert(c == digit_char((rest % 10) as nat));
            assert(reversed@.reverse() =~= seq![c] + before.reverse());
            assert(numeral(rest as nat) == numeral((rest / 10) as nat).push(c));
            assert(numeral((rest / 10) as nat).push(c) + before.reverse() =~= numeral(
                (rest / 10) as nat,
            ) + reversed@.reverse());
        }
        rest = rest / 10;
    }
    let first: char = (48u8 + rest as u8) as char;
    let ghost before = reversed@;
    reversed.push(first);
    let ghost whole = reversed@.reverse();
    proof {
        assert(first == digit_char(rest as nat));
        assert(whole =~= seq![first] + before.reverse());
        assert(numeral(n as nat) =~= whole);
    }
    let mut digits: Vec<char> = Vec::new();
    let mut i: usize = reversed.len();
    while i > 0
        invariant
            i <= reversed.len(),
            whole == reversed@.reverse(),
            digits@ == whole.take(reversed.len() - i),
        decreases i,
    {
        i -= 1;
        digits.push(reversed[i]);
        assert(digits@ =~= whole.take(reversed.len() - i));
    }
    assert(whole.take(reversed.len() as int) =~= whole);
    text_of(&digits)
}

/// The number that `text` writes, if `text` is the decimal numeral of a
/// number that fits in 64 bits: digits only, at least one, no leading zero
/// before another digit.
pub open spec fn parsed_number(text: Seq<char>) -> Option<u64> {
    if text.len() >= 1 && all_digits(text) && (text.len() == 1 || text[0] != '0') && number(text)
        <= u64::MAX {
        Some(number(text) as u64)
    } else {
        None
    }
}

/// The front of a run of digits writes no more than the run.
pub proof fn lemma_number_grows(text: Seq<char>, front: int)
    requires
        0 <= front <= text.len(),
    ensures
        number(text.take(front)) <= number(text),
    decreases text.len() - front,
{
    if front < text.len() {
        assert(text.take(front + 1).drop_last() =~= text.take(front));
        lemma_number_grows(text, front + 1);
    } else {
        assert(text.take(front) =~= text);
    }
}

/// Only the numeral of zero starts with a zero.
pub proof fn lemma_numeral_starts(n: nat)
    ensures
        n < 10 ==> numeral(n).len() == 1,
        n >= 1 ==> numeral(n)[0] != '0',
    decreases n,
{
    if n >= 10 {
        lemma_numeral_starts(n / 10);
        lemma_numeral(n / 10);
        assert(numeral(n)[0] == numeral(n / 10)[0]);
    } else {
        assert(numeral(n)[0] == digit_char(n));
    }
}

/// The numeral of a number of 64 bits has at most twenty digits.
pub proof fn lemma_numeral_is_short(n: u64)
    ensures
        numeral(n as nat).len() <= 20,
{
    reveal_with_fuel(numeral, 21);
}

/// Reading what was written gives the number back.
pub proof fn lemma_number_round_trip(n: u64)
    ensures
        parsed_number(numeral(n as nat)) == Some(n),
{
    lemma_numeral(n as nat);
    lemma_numeral_starts(n as nat);
}

/// Reads `text[..end]` as a decimal numeral.
pub fn read_number(text: &Vec<char>, end: usize) -> (n: Option<u64>)
    requires
        end <= text.len(),
    ensures
        n == parsed_number(text@.take(end as int)),
{
    let ghost digits = text@.take(end as int);
    if end == 0 {
        return None;
    }
    if end > 1 && text[0] == '0' {
        assert(digits[0] == '0');
        return None;
    }
    let mut value: u64 = 0;
    let mut i: usize = 0;
    assert(digits.take(0) =~= Seq::<char>::empty());
    while i < end
        invariant
            i <= end <= text.len(),
            digits == text@.take(end as int),
            value == number(digits.take(i as int)),
            all_digits(digits.take(i as int)),
        decreases end - i,
    {
        let c = text[i];
        proof {
            assert(digits.take(i + 1).drop_last() =~= digits.take(i as int));
            assert(digits.take(i + 1).last() == c);
            lemma_number_grows(digits, i + 1);
        }
        if !('0' <= c && c <= '9') {
            assert(!is_digit(digits[i as int]));
            return None;
        }
        let d: u64 = (c as u8 - 48u8) as u64;
        assert(d == digit_value(c));
        if value > (u64::MAX - d) / 10 {
            return None;
        }
        value = value * 10 + d;
        proof {
            assert forall|j: int| 0 <= j < i + 1 implies is_digit(
                #[trigger] digits.take(i + 1)[j],
            ) by {
                if j < i {
                    assert(digits.take(i as int)[j] == digits.take(i + 1)[j]);
                }
            }
        }
        i += 1;
    }
    assert(digits.take(end as int) =~= digits);
    Some(value)
}

/// What a self-contained session token says: whom it speaks for and until
/// when.
#[derive(Debug)]
pub struct Claims {
    /// Username of the account that the session belongs to.
    pub username: String,
    /// The last second at which the session is valid, in seconds since the
    /// Unix epoch.
    pub expires_at: u64,
}

/// Mathematical value of [`Claims`].
pub struct ClaimsView {
    pub username: Seq<char>,
    pub expires_at: u64,
}

impl View for Claims {
    type V = ClaimsView;

    open spec fn view(&self) -> ClaimsView {
        ClaimsView { username: self.username@, expires_at: self.expires_at }
    }
}

/// The text that carries `claims`: the numeral of the time of expiry, a
/// colon, and the username.
pub open spec fn encoded(claims: ClaimsView) -> Seq<char> {
    numeral(claims.expires_at as nat) + seq![':'] + claims.username
}

/// The first colon of `text` stands at `at`.
pub open spec fn first_colon(text: Seq<char>, at: int) -> bool {
    &&& 0 <= at < text.len()
    &&& text[at] == ':'
    &&& forall|j: int| 0 <= j < at ==> text[j] != ':'
}

/// The claims that `text` carries, if it carries any: what stands before
/// its first colon must be the numeral of a time; what follows is the
/// username.
pub open spec fn decoded(text: Seq<char>) -> Option<ClaimsView> {
    if exists|at: int| first_colon(text, at) {
        let at = choose|at: int| first_colon(text, at);
        match parsed_number(text.take(at)) {
            Some(expires_at) => Some(ClaimsView { username: text.skip(at + 1), expires_at }),
            None => None,
        }
    } else {
        None
    }
}

/// Mathematical value of claims that may be absent.
pub open spec fn claimed(claims: Option<Claims>) -> Option<ClaimsView> {
    match claims {
        Some(c) => Some(c@),
        None => None,
    }
}

/// Decoding what was encoded gives the claims back.
pub proof fn lemma_claims_round_trip(claims: ClaimsView)
    ensures
        decoded(encoded(claims)) == Some(claims),
{
    let digits = numeral(claims.expires_at as nat);
    let text = encoded(claims);
    lemma_numeral(claims.expires_at as nat);
    lemma_number_round_trip(claims.expires_at);
    assert forall|j: int| 0 <= j < digits.len() implies text[j] != ':' by {
        assert(is_digit(digits[j]));
    }
    assert(first_colon(text, digits.len() as int));
    let at = choose|at: int| first_colon(text, at);
    assert(at == digits.len());
    assert(text.take(at) =~= digits);
    assert(text.skip(at + 1) =~= claims.username);
}

/// The text that carries `claims`.
pub fn encode_claims(claims: &Claims) -> (text: String)
    ensures
        text@ == encoded(claims@),
{
    proof {
        reveal_strlit(":");
    }
    let mut text = write_number(claims.expires_at);
    text.append(":");
    text.append(claims.username.as_str());
    assert(":"@ =~= seq![':']);
    text
}

/// The claims that `text` carries, if it carries any.
pub fn decode_claims(text: &str) -> (claims: Option<Claims>)
    ensures
        claimed(claims) == decoded(text@),
{
    let chars = to_chars(text);
    let mut at: usize = 0;
    while at < chars.len() && chars[at] != ':'
        invariant
            at <= chars.len(),
            forall|j: int| 0 <= j < at ==> chars@[j] != ':',
        decreases chars.len() - at,
    {
        at += 1;
    }
    if at == chars.len() {
        assert forall|k: int| !first_colon(text@, k) by {}
        return None;
    }
    proof {
        assert(first_colon(text@, at as int));
        let k = choose|k: int| first_colon(text@, k);
        assert(k == at);
    }
    match read_number(&chars, at) {
        Some(expires_at) => {
            let username = String::from_str(text.substring_char(at + 1, chars.len()));
            assert(username@ =~= text@.skip(at + 1));
            Some(Claims { username, expires_at })
        },
        None => None,
    }
}

/// The shortest key that seals: sixty-four bytes.
pub const KEY_BYTES: usize = 64;

/// The longest username, in characters, that a session is sealed for. It
/// keeps the sealed text far inside what the cipher takes.
pub const NAME_LIMIT: usize = 0x0100_0000;

/// What comes out when the `cookie` crate opens the value `sealed` of a
/// private cookie called `name` under `key`: the value that was sealed, or
/// `None` if the key is too short, or the text was not sealed under this key
/// for this name, or was changed since.
pub uninterp spec fn unsealed(key: Seq<u8>, name: Seq<char>, sealed: Seq<char>) -> Option<
    Seq<char>,
>;

/// Seals `value` as the value of a private cookie called `name` under `key`
/// (`Key::try_from` and `PrivateJar::add` of cookie). Believed: a key of
/// sixty-four bytes or more seals and a shorter one does not, and what was
/// sealed opens again under the same key and name. The sealed text itself
/// depends on a random nonce; nothing else is claimed of it. Long values are
/// kept out because the cipher gives up on a text of many gigabytes.
#[verifier::external_body]
fn seal(key: &[u8], name: &str, value: &str) -> (sealed: Option<String>)
    requires
        value@.len() <= 2 * NAME_LIMIT,
    ensures
        sealed is Some <==> key@.len() >= KEY_BYTES,
        sealed matches Some(text) ==> unsealed(key@, name@, text@) == Some(value@),
{
    let key = Key::try_from(key).ok()?;
    let mut jar = CookieJar::new();
    jar.private_mut(&key).add(Cookie::new(name.to_owned(), value.to_owned()));
    jar.get(name).map(|cookie| cookie.value().to_owned())
}

/// Opens the value `sealed` of a private cookie called `name` under `key`
/// (`Key::try_from` and `PrivateJar::decrypt` of cookie). Believed: the
/// outcome is a function of the three arguments.
#[verifier::external_body]
fn unseal(key: &[u8], name: &str, sealed: &str) -> (value: Option<String>)
    ensures
        value.deep_view() == unsealed(key@, name@, sealed@),
{
    let key = Key::try_from(key).ok()?;
    let jar = CookieJar::new();
    let opened = jar.private(&key).decrypt(Cookie::new(name.to_owned(), sealed.to_owned()))?;
    Some(opened.value().to_owned())
}

/// The claims of a session for `username` that is created at `now`: it
/// expires fourteen days later.
pub open spec fn session_claims(username: Seq<char>, now: u64) -> ClaimsView {
    ClaimsView { username, expires_at: expiry(now) }
}

/// Whom the opened text `opened` of a token speaks for at the time `now`:
/// the account that its claims name, unless the text carries no claims or
/// their time has passed.
pub open spec fn speaks_for(opened: Option<Seq<char>>, now: u64) -> Option<Seq<char>> {
    match opened {
        Some(text) => match decoded(text) {
            Some(claims) => if now <= claims.expires_at {
                Some(claims.username)
            } else {
                None
            },
            None => None,
        },
        None => None,
    }
}

/// Creates a session for `username` at the time `now`, in seconds since the
/// Unix epoch: seals its claims under `key` and hands out the cookie that
/// carries the token. `None` if the key is shorter than sixty-four bytes, or
/// the username longer than any that is sealed.
pub fn create_session(key: &[u8], username: &str, now: u64) -> (cookie: Option<SessionCookie>)
    ensures
        cookie is Some <==> key@.len() >= KEY_BYTES && username@.len() <= NAME_LIMIT,
        cookie matches Some(c) ==> {
            &&& c@ == issued_cookie(c@.value, now)
            &&& unsealed(key@, SESSION_COOKIE@, c@.value) == Some(
                encoded(session_claims(username@, now)),
            )
        },
{
    if username.unicode_len() > NAME_LIMIT {
        return None;
    }
    let claims = Claims {
        username: String::from_str(username),
        expires_at: now.saturating_add(SESSION_TTL),
    };
    let text = encode_claims(&claims);
    proof {
        lemma_numeral_is_short(claims.expires_at);
    }
    match seal(key, SESSION_COOKIE, text.as_str()) {
        Some(token) => Some(session_cookie(token, now)),
        None => None,
    }
}

/// Reads the username out of the opened text of a token, at the time `now`.
/// `opened` is what opening the token gave: `None` if it did not open.
pub fn check_claims(opened: Option<String>, now: u64) -> (username: Option<String>)
    ensures
        username.deep_view() == speaks_for(opened.deep_view(), now),
{
    match opened {
        Some(text) => match decode_claims(text.as_str()) {
            Some(claims) => if now <= claims.expires_at {
                Some(claims.username)
            } else {
                None
            },
            None => None,
        },
        None => None,
    }
}

/// The account that the token `token` speaks for at the time `now`: the one
/// called what its claims say, if the token opens under `key`, its time has
/// not passed, and the account exists.
pub fn resolve_session(key: &[u8], token: &str, now: u64, db: &Store) -> (user: Option<User>)
    ensures
        found(user) == (match speaks_for(unsealed(key@, SESSION_COOKIE@, token@), now) {
            Some(username) => account_called(db@.users, username),
            None => None,
        }),
{
    match check_claims(unseal(key, SESSION_COOKIE, token), now) {
        Some(username) => db.find_by_username(username.as_str()),
        None => None,
    }
}

/// A session speaks for its account until it expires and for nobody after:
/// a token that opens to the claims of a session created at `created` for
/// `username` speaks for `username` at every time up to fourteen days later,
/// and for nobody at any later time.
pub proof fn lemma_session_expires(username: Seq<char>, created: u64, now: u64)
    ensures
        speaks_for(Some(encoded(session_claims(username, created))), now) == (if now <= expiry(
            created,
        ) {
            Some(username)
        } else {
            None
        }),
{
    lemma_claims_round_trip(session_claims(username, created));
}

} // verus!
