//! Views of optional strings.

use vstd::prelude::*;

verus! {

/// The characters of an optional borrowed string.
pub open spec fn str_chars(o: Option<&str>) -> Option<Seq<char>> {
    match o {
        Some(s) => Some(s@),
        None => None,
    }
}

/// The characters of an optional owned string.
pub open spec fn string_chars(o: Option<String>) -> Option<Seq<char>> {
    match o {
        Some(s) => Some(s@),
        None => None,
    }
}

/// The text, or `fallback` where there is none.
pub open spec fn chars_or(o: Option<Seq<char>>, fallback: Seq<char>) -> Seq<char> {
    match o {
        Some(s) => s,
        None => fallback,
    }
}

/// `o`, or `fallback` where it is `None`.
pub fn str_or<'a>(o: Option<&'a str>, fallback: &'a str) -> (r: &'a str)
    ensures
        r@ == chars_or(str_chars(o), fallback@),
{
    match o {
        Some(s) => s,
        None => fallback,
    }
}

} // verus!
