//! Searching in sequences of characters.

use vstd::prelude::*;
use vstd::std_specs::iter::IteratorSpec;
use vstd::string::*;

verus! {

/// `needle` stands in `hay` at offset `at`.
pub open spec fn occurs_at(hay: Seq<char>, needle: Seq<char>, at: int) -> bool {
    &&& 0 <= at
    &&& at + needle.len() <= hay.len()
    &&& hay.subrange(at, at + needle.len()) == needle
}

/// The least offset not below `from` at which `needle` stands in `hay`.
pub open spec fn first_from(hay: Seq<char>, needle: Seq<char>, from: int) -> Option<int>
    decreases hay.len() - from + 1,
{
    if from < 0 || from + needle.len() > hay.len() {
        None
    } else if occurs_at(hay, needle, from) {
        Some(from)
    } else {
        first_from(hay, needle, from + 1)
    }
}

/// The greatest offset not above `from` at which `needle` stands in `hay`.
pub open spec fn last_upto(hay: Seq<char>, needle: Seq<char>, from: int) -> Option<int>
    decreases from + 1,
{
    if from < 0 {
        None
    } else if occurs_at(hay, needle, from) {
        Some(from)
    } else {
        last_upto(hay, needle, from - 1)
    }
}

/// The offset of the first occurrence of `needle` in `hay`.
pub open spec fn first_occurrence(hay: Seq<char>, needle: Seq<char>) -> Option<int> {
    first_from(hay, needle, 0)
}

/// The offset of the last occurrence of `needle` in `hay`.
pub open spec fn last_occurrence(hay: Seq<char>, needle: Seq<char>) -> Option<int> {
    last_upto(hay, needle, hay.len() - needle.len())
}

/// `needle` stands somewhere in `hay`.
pub open spec fn contains(hay: Seq<char>, needle: Seq<char>) -> bool {
    exists|at: int| occurs_at(hay, needle, at)
}

/// What `first_from` finds is an occurrence, and none lies between `from`
/// and it; where it finds nothing, there is none from `from` on.
pub proof fn lemma_first_from(hay: Seq<char>, needle: Seq<char>, from: int)
    requires
        0 <= from,
    ensures
        match first_from(hay, needle, from) {
            Some(at) => from <= at && occurs_at(hay, needle, at) && forall|j: int|
                from <= j < at ==> !occurs_at(hay, needle, j),
            None => forall|j: int| from <= j ==> !occurs_at(hay, needle, j),
        },
    decreases hay.len() - from + 1,
{
    if from + needle.len() > hay.len() {
    } else if occurs_at(hay, needle, from) {
    } else {
        lemma_first_from(hay, needle, from + 1);
    }
}

/// What `last_upto` finds is an occurrence, and none lies between it and
/// `from`; where it finds nothing, there is none up to `from`.
pub proof fn lemma_last_upto(hay: Seq<char>, needle: Seq<char>, from: int)
    ensures
        match last_upto(hay, needle, from) {
            Some(at) => at <= from && occurs_at(hay, needle, at) && forall|j: int|
                at < j <= from ==> !occurs_at(hay, needle, j),
            None => forall|j: int| j <= from ==> !occurs_at(hay, needle, j),
        },
    decreases from + 1,
{
    if from < 0 {
    } else if occurs_at(hay, needle, from) {
    } else {
        lemma_last_upto(hay, needle, from - 1);
    }
}

/// A first occurrence exists exactly where an occurrence exists.
pub proof fn lemma_first_occurrence_contains(hay: Seq<char>, needle: Seq<char>)
    ensures
        first_occurrence(hay, needle) is Some <==> contains(hay, needle),
        last_occurrence(hay, needle) is Some <==> contains(hay, needle),
{
    lemma_first_from(hay, needle, 0);
    lemma_last_upto(hay, needle, hay.len() - needle.len());
}

/// The characters of `s`, in order.
pub fn chars_of(s: &str) -> (out: Vec<char>)
    ensures
        out@ == s@,
{
    let mut out: Vec<char> = Vec::new();
    let mut it = s.chars();
    proof {
        broadcast use group_string_axioms;
    }
    loop
        invariant
            out@ + it.remaining() == s@,
            it.obeys_prophetic_iter_laws(),
            it.decrease() is Some,
        decreases it.decrease()->0,
    {
        let ghost before = it;
        let next = it.next();
        proof {
            broadcast use group_string_axioms;
            next_postcondition(&before, &it, next);
        }
        match next {
            Some(c) => {
                assert(out@.push(c) + it.remaining() =~= out@ + before.remaining());
                out.push(c);
            },
            None => {
                assert(out@ + it.remaining() =~= out@);
                return out;
            },
        }
    }
}

/// Whether `s` holds the same text as `text`.
pub fn text_is(s: &String, text: &str) -> (same: bool)
    ensures
        same == (s@ == text@),
{
    let other = String::from_str(text);
    *s == other
}

/// Whether `needle` stands in `hay` at offset `at`.
pub fn matches_at(hay: &Vec<char>, needle: &Vec<char>, at: usize) -> (found: bool)
    ensures
        found == occurs_at(hay@, needle@, at as int),
{
    if needle.len() > hay.len() || at > hay.len() - needle.len() {
        return false;
    }
    let mut k: usize = 0;
    while k < needle.len()
        invariant
            k <= needle.len(),
            at + needle.len() <= hay.len(),
            forall|j: int| 0 <= j < k ==> hay@[at + j] == needle@[j],
        decreases needle.len() - k,
    {
        if hay[at + k] != needle[k] {
            assert(hay@.subrange(at as int, at + needle.len())[k as int] == hay@[at + k]);
            return false;
        }
        k += 1;
    }
    assert(hay@.subrange(at as int, at + needle.len()) =~= needle@);
    true
}

/// The offset of the first occurrence of `needle` in `hay`.
pub fn find_first(hay: &Vec<char>, needle: &Vec<char>) -> (found: Option<usize>)
    ensures
        match found {
            Some(at) => first_occurrence(hay@, needle@) == Some(at as int),
            None => first_occurrence(hay@, needle@) is None,
        },
{
    if needle.len() > hay.len() {
        return None;
    }
    let last: usize = hay.len() - needle.len();
    let mut at: usize = 0;
    loop
        invariant
            last == hay.len() - needle.len(),
            at <= last,
            first_occurrence(hay@, needle@) == first_from(hay@, needle@, at as int),
        decreases last - at,
    {
        if matches_at(hay, needle, at) {
            return Some(at);
        }
        assert(first_from(hay@, needle@, at as int) == first_from(hay@, needle@, at + 1));
        if at == last {
            return None;
        }
        at += 1;
    }
}

/// The offset of the last occurrence of `needle` in `hay`.
pub fn find_last(hay: &Vec<char>, needle: &Vec<char>) -> (found: Option<usize>)
    ensures
        match found {
            Some(at) => last_occurrence(hay@, needle@) == Some(at as int),
            None => last_occurrence(hay@, needle@) is None,
        },
{
    if needle.len() > hay.len() {
        return None;
    }
    let mut at: usize = hay.len() - needle.len();
    loop
        invariant
            at + needle.len() <= hay.len(),
            last_occurrence(hay@, needle@) == last_upto(hay@, needle@, at as int),
        decreases at,
    {
        if matches_at(hay, needle, at) {
            return Some(at);
        }
        assert(last_upto(hay@, needle@, at as int) == last_upto(hay@, needle@, at - 1));
        if at == 0 {
            return None;
        }
        at -= 1;
    }
}

/// Whether `needle` stands somewhere in `hay`.
pub fn contains_text(hay: &Vec<char>, needle: &Vec<char>) -> (found: bool)
    ensures
        found == contains(hay@, needle@),
{
    proof {
        lemma_first_occurrence_contains(hay@, needle@);
    }
    find_first(hay, needle).is_some()
}

} // verus!
