//! Character-level helpers shared by the rules on names, permissions and paths.

use vstd::prelude::*;
use vstd::string::*;

verus! {

/// The characters of `s`, in order.
pub fn to_chars(s: &str) -> (v: Vec<char>)
    ensures
        v@ == s@,
{
    let mut v: Vec<char> = Vec::new();
    for c in it: s.chars()
        invariant
            v@ == it.seq().take(it.index() as int),
            it.seq() == s@,
    {
        v.push(c);
    }
    v
}

/// The text made of `chars` (`String::from_iter` of std). Believed: the text
/// holds the characters, in order.
#[verifier::external_body]
pub(crate) fn text_of(chars: &Vec<char>) -> (text: String)
    ensures
        text@ == chars@,
{
    String::from_iter(chars.iter())
}

/// Whether `a` and `b` are the same text.
pub fn same_text(a: &str, b: &str) -> (same: bool)
    ensures
        same == (a@ == b@),
{
    let left = to_chars(a);
    let right = to_chars(b);
    if left.len() != right.len() {
        return false;
    }
    let mut i: usize = 0;
    while i < left.len()
        invariant
            left@ == a@,
            right@ == b@,
            left.len() == right.len(),
            i <= left.len(),
            forall|j: int| 0 <= j < i ==> a@[j] == b@[j],
        decreases left.len() - i,
    {
        if left[i] != right[i] {
            return false;
        }
        i += 1;
    }
    assert(a@ =~= b@);
    true
}

/// The parts in order, with `sep` between neighbours.
pub open spec fn joined(parts: Seq<Seq<char>>, sep: char) -> Seq<char>
    decreases parts.len(),
{
    if parts.len() == 0 {
        Seq::empty()
    } else if parts.len() == 1 {
        parts[0]
    } else {
        joined(parts.drop_last(), sep) + seq![sep] + parts.last()
    }
}

/// `needle` stands in `hay` from position `at` on.
pub open spec fn occurs_at(needle: Seq<char>, hay: Seq<char>, at: int) -> bool {
    &&& 0 <= at
    &&& at + needle.len() <= hay.len()
    &&& hay.subrange(at, at + needle.len()) == needle
}

/// `needle` stands somewhere in `hay`, as a run of neighbouring characters.
pub open spec fn occurs_in(needle: Seq<char>, hay: Seq<char>) -> bool {
    exists|at: int| occurs_at(needle, hay, at)
}

/// `hay` ends with `tail`.
pub open spec fn ends_with(hay: Seq<char>, tail: Seq<char>) -> bool {
    &&& tail.len() <= hay.len()
    &&& hay.subrange(hay.len() - tail.len(), hay.len() as int) == tail
}

/// A text that holds no separator and occurs in two texts joined by one
/// occurs in one of the two.
pub proof fn lemma_occurrence_keeps_to_one_side(
    needle: Seq<char>,
    left: Seq<char>,
    sep: char,
    right: Seq<char>,
)
    requires
        !needle.contains(sep),
        occurs_in(needle, left + seq![sep] + right),
    ensures
        occurs_in(needle, left) || occurs_in(needle, right),
{
    let hay = left + seq![sep] + right;
    let at = choose|at: int| occurs_at(needle, hay, at);
    let found = hay.subrange(at, at + needle.len());
    if at + needle.len() <= left.len() {
        assert(left.subrange(at, at + needle.len()) =~= found);
        assert(occurs_at(needle, left, at));
    } else if at > left.len() {
        let shifted = at - left.len() - 1;
        assert(right.subrange(shifted, shifted + needle.len()) =~= found);
        assert(occurs_at(needle, right, shifted));
    } else {
        assert(found[left.len() - at] == sep);
        assert(needle.contains(sep));
    }
}

/// Joining hides nothing new: a text without the separator that occurs in
/// none of the parts does not occur in their joined text either.
pub proof fn lemma_joined_hides(parts: Seq<Seq<char>>, sep: char, needle: Seq<char>)
    requires
        parts.len() > 0,
        !needle.contains(sep),
        forall|i: int| 0 <= i < parts.len() ==> !occurs_in(needle, #[trigger] parts[i]),
    ensures
        !occurs_in(needle, joined(parts, sep)),
    decreases parts.len(),
{
    if parts.len() > 1 {
        let front = parts.drop_last();
        assert forall|i: int| 0 <= i < front.len() implies !occurs_in(
            needle,
            #[trigger] front[i],
        ) by {
            assert(front[i] == parts[i]);
        }
        lemma_joined_hides(front, sep, needle);
        if occurs_in(needle, joined(parts, sep)) {
            lemma_occurrence_keeps_to_one_side(needle, joined(front, sep), sep, parts.last());
        }
    }
}

/// A joined text ends with its last part.
pub proof fn lemma_joined_ends_with_last(parts: Seq<Seq<char>>, sep: char)
    requires
        parts.len() > 0,
    ensures
        ends_with(joined(parts, sep), parts.last()),
{
    let whole = joined(parts, sep);
    let last = parts.last();
    assert(whole.subrange(whole.len() - last.len(), whole.len() as int) =~= last);
}

/// The parts in order, with a slash between neighbours.
pub fn join_path(parts: &Vec<String>) -> (path: String)
    ensures
        path@ == joined(parts.deep_view(), '/'),
{
    proof {
        reveal_strlit("/");
    }
    let ghost all = parts.deep_view();
    let mut path = String::new();
    let mut i: usize = 0;
    while i < parts.len()
        invariant
            i <= parts.len(),
            all == parts.deep_view(),
            "/"@ == seq!['/'],
            path@ == joined(all.take(i as int), '/'),
        decreases parts.len() - i,
    {
        let ghost before = all.take(i as int);
        let ghost after = all.take(i + 1);
        proof {
            assert(after.drop_last() =~= before);
            assert(after.last() == parts@[i as int]@);
        }
        if i > 0 {
            path.append("/");
        }
        path.append(parts[i].as_str());
        i += 1;
    }
    assert(all.take(i as int) =~= all);
    path
}

} // verus!
