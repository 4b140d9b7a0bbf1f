//! Character sequences: the model of every text the library reads, and the
//! searches on them.

use vstd::prelude::*;
use vstd::string::StringExecFns;

verus! {

/// `needle` stands in `hay` at position `at`.
pub open spec fn occurs_at(hay: Seq<char>, needle: Seq<char>, at: int) -> bool {
    &&& 0 <= at
    &&& at + needle.len() <= hay.len()
    &&& hay.subrange(at, at + needle.len()) == needle
}

/// `hay` begins with `needle`.
pub open spec fn begins_with(hay: Seq<char>, needle: Seq<char>) -> bool {
    occurs_at(hay, needle, 0)
}

/// `needle` stands somewhere in `hay`. The empty text stands in every text.
pub open spec fn contains_text(hay: Seq<char>, needle: Seq<char>) -> bool {
    exists|at: int| occurs_at(hay, needle, at)
}

/// One of `needles` stands somewhere in `hay`.
pub open spec fn contains_any(hay: Seq<char>, needles: Seq<Seq<char>>) -> bool {
    exists|k: int| 0 <= k < needles.len() && contains_text(hay, #[trigger] needles[k])
}

/// `hay` begins with one of `needles`.
pub open spec fn begins_with_any(hay: Seq<char>, needles: Seq<Seq<char>>) -> bool {
    exists|k: int| 0 <= k < needles.len() && begins_with(hay, #[trigger] needles[k])
}

/// The views of a list of strings.
pub open spec fn texts(list: Seq<String>) -> Seq<Seq<char>> {
    list.map_values(|s: String| s@)
}

/// The characters of `s`, in order.
pub fn to_chars(s: &str) -> (chars: Vec<char>)
    ensures
        chars@ == s@,
{
    let mut chars: Vec<char> = Vec::new();
    for c in it: s.chars()
        invariant
            it.seq() == s@,
            chars@ == it.seq().take(it.index()),
    {
        chars.push(c);
    }
    chars
}

/// The string made of `chars[from..to]`. Calls std's `String::from_iter`, for
/// which vstd has no specification: the contract repeats its documentation,
/// that the string holds the characters of the iterator in order.
#[verifier::external_body]
pub(crate) fn from_chars(chars: &Vec<char>, from: usize, to: usize) -> (s: String)
    requires
        from <= to <= chars.len(),
    ensures
        s@ == chars@.subrange(from as int, to as int),
{
    String::from_iter(chars[from..to].iter())
}

/// `head` followed by `tail`.
pub fn concat(head: &str, tail: &str) -> (all: String)
    ensures
        all@ == head@ + tail@,
{
    let mut all = head.to_owned();
    all.append(tail);
    all
}

/// Whether `needle` stands in `hay` at position `at`.
pub fn occurs_at_exec(hay: &Vec<char>, needle: &Vec<char>, at: usize) -> (found: bool)
    ensures
        found == occurs_at(hay@, needle@, at as int),
{
    if at > hay.len() || needle.len() > hay.len() - at {
        return false;
    }
    let mut k: usize = 0;
    while k < needle.len()
        invariant
            at + needle.len() <= hay.len(),
            k <= needle.len(),
            forall|j: int| 0 <= j < k ==> hay@[at + j] == needle@[j],
        decreases needle.len() - k,
    {
        if hay[at + k] != needle[k] {
            return false;
        }
        k += 1;
    }
    assert(hay@.subrange(at as int, at + needle.len()) =~= needle@);
    true
}

/// Whether `needle` stands somewhere in `hay`.
pub fn contains_exec(hay: &Vec<char>, needle: &Vec<char>) -> (found: bool)
    ensures
        found == contains_text(hay@, needle@),
{
    if needle.len() > hay.len() {
        return false;
    }
    let last: usize = hay.len() - needle.len();
    let mut at: usize = 0;
    loop
        invariant
            last == hay.len() - needle.len(),
            at <= last,
            forall|j: int| 0 <= j < at ==> !occurs_at(hay@, needle@, j),
        decreases last - at,
    {
        if occurs_at_exec(hay, needle, at) {
            return true;
        }
        if at == last {
            return false;
        }
        at += 1;
    }
}

/// Whether `a` and `b` hold the same characters.
pub fn same_text(a: &str, b: &str) -> (same: bool)
    ensures
        same == (a@ == b@),
{
    let x = a.to_owned();
    let y = b.to_owned();
    x == y
}

/// Whether one of `needles` stands somewhere in `hay`.
pub fn contains_any_exec(hay: &str, needles: &Vec<String>) -> (found: bool)
    ensures
        found == contains_any(hay@, texts(needles@)),
{
    let hay_chars = to_chars(hay);
    let mut k: usize = 0;
    while k < needles.len()
        invariant
            k <= needles.len(),
            hay_chars@ == hay@,
            forall|j: int| 0 <= j < k ==> !contains_text(hay@, #[trigger] texts(needles@)[j]),
        decreases needles.len() - k,
    {
        let needle = to_chars(needles[k].as_str());
        if contains_exec(&hay_chars, &needle) {
            assert(texts(needles@)[k as int] == needle@);
            return true;
        }
        k += 1;
    }
    false
}

/// Whether `hay` begins with one of `needles`.
pub fn begins_with_any_exec(hay: &str, needles: &Vec<String>) -> (found: bool)
    ensures
        found == begins_with_any(hay@, texts(needles@)),
{
    let hay_chars = to_chars(hay);
    let mut k: usize = 0;
    while k < needles.len()
        invariant
            k <= needles.len(),
            hay_chars@ == hay@,
            forall|j: int| 0 <= j < k ==> !begins_with(hay@, #[trigger] texts(needles@)[j]),
        decreases needles.len() - k,
    {
        let needle = to_chars(needles[k].as_str());
        if occurs_at_exec(&hay_chars, &needle, 0) {
            assert(texts(needles@)[k as int] == needle@);
            return true;
        }
        k += 1;
    }
    false
}

} // verus!
