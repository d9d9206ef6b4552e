//! Small verified operations on string slices, stated over their views as
//! sequences of characters.

use vstd::prelude::*;
use vstd::std_specs::iter::IteratorSpec;
use vstd::string::*;

verus! {

/// The position of the first occurrence of `needle` in `s`, counted in characters.
pub fn find_char(s: &str, needle: char) -> (found: Option<usize>)
    ensures
        match found {
            Some(i) => s@.index_of_first(needle) == Some(i as int),
            None => s@.index_of_first(needle) is None,
        },
{
    broadcast use vstd::string::group_string_axioms;

    let len = s.unicode_len();
    let mut chars = s.chars();
    let mut at: usize = 0;
    loop
        invariant
            len == s@.len(),
            at <= s@.len(),
            chars.remaining() == s@.skip(at as int),
            forall|j: int| 0 <= j < at ==> s@[j] != needle,
        decreases s@.len() - at,
    {
        proof {
            s@.index_of_first_ensures(needle);
        }
        match chars.next() {
            None => {
                assert(at == s@.len());
                return None;
            },
            Some(c) => {
                assert(c == s@[at as int]);
                if c == needle {
                    return Some(at);
                }
                at = at + 1;
            },
        }
    }
}

/// Whether two string slices hold the same characters.
pub fn same_text(a: &str, b: &str) -> (same: bool)
    ensures
        same == (a@ == b@),
{
    broadcast use vstd::string::group_string_axioms;

    let len = a.unicode_len();
    if b.unicode_len() != len {
        return false;
    }
    let mut left = a.chars();
    let mut right = b.chars();
    let mut at: usize = 0;
    while at < len
        invariant
            len == a@.len(),
            len == b@.len(),
            at <= len,
            left.remaining() == a@.skip(at as int),
            right.remaining() == b@.skip(at as int),
            forall|j: int| 0 <= j < at ==> a@[j] == b@[j],
        decreases len - at,
    {
        let x = left.next();
        let y = right.next();
        assert(x == Some(a@[at as int]));
        assert(y == Some(b@[at as int]));
        if x != y {
            return false;
        }
        at = at + 1;
    }
    assert(a@ =~= b@);
    true
}

/// Whether `s` begins with the characters of `prefix`.
pub fn starts_with(s: &str, prefix: &str) -> (yes: bool)
    ensures
        yes == prefix@.is_prefix_of(s@),
{
    let len = prefix.unicode_len();
    if s.unicode_len() < len {
        return false;
    }
    same_text(s.substring_char(0, len), prefix)
}

/// What follows `prefix` in `s`, where `s` begins with it.
pub fn strip_prefix<'a>(s: &'a str, prefix: &str) -> (rest: Option<&'a str>)
    ensures
        match rest {
            Some(rest) => prefix@.is_prefix_of(s@) && rest@ == s@.skip(prefix@.len() as int),
            None => !prefix@.is_prefix_of(s@),
        },
{
    if starts_with(s, prefix) {
        Some(s.substring_char(prefix.unicode_len(), s.unicode_len()))
    } else {
        None
    }
}

/// Splits `s` at the first occurrence of `delimiter`: what stands before it,
/// and what stands after it.
pub fn split_once<'a>(s: &'a str, delimiter: char) -> (parts: Option<(&'a str, &'a str)>)
    ensures
        match parts {
            Some((head, tail)) => s@.index_of_first(delimiter) matches Some(i) && head@
                == s@.take(i) && tail@ == s@.skip(i + 1),
            None => s@.index_of_first(delimiter) is None,
        },
{
    match find_char(s, delimiter) {
        None => None,
        Some(i) => {
            proof {
                s@.index_of_first_ensures(delimiter);
            }
            let len = s.unicode_len();
            let head = s.substring_char(0, i);
            let tail = s.substring_char(i + 1, len);
            Some((head, tail))
        },
    }
}

} // verus!
