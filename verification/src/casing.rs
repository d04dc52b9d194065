//! Case conversion.  Full Unicode case mapping is applied by the standard
//! library; its results are named here and every other contract in the crate
//! speaks of those names.

use vstd::prelude::*;
use crate::handle::Str;

verus! {

/// The full Unicode lowercase mapping of a codepoint sequence.  The mapping
/// may change the number of codepoints.
pub uninterp spec fn lower_of(s: Seq<char>) -> Seq<char>;

/// The full Unicode uppercase mapping of a codepoint sequence.  The mapping
/// may change the number of codepoints.
pub uninterp spec fn upper_of(s: Seq<char>) -> Seq<char>;

/// The first codepoint of the lowercase mapping of a single codepoint.
pub uninterp spec fn lower_char_of(c: char) -> char;

/// The first codepoint of the uppercase mapping of a single codepoint.
pub uninterp spec fn upper_char_of(c: char) -> char;

/// The lowercase form of `s` under full Unicode case mapping.
///
/// Relies on `str::to_lowercase`: its result is a function of the
/// receiver's characters alone.
#[verifier::external_body]
pub fn toLower(s: &Str) -> (r: Str)
    ensures
        r@ == lower_of(s@),
{
    Str { chars: s.chars.iter().collect::<String>().to_lowercase().chars().collect() }
}

/// The uppercase form of `s` under full Unicode case mapping.
///
/// Relies on `str::to_uppercase`: its result is a function of the
/// receiver's characters alone.
#[verifier::external_body]
pub fn toUpper(s: &Str) -> (r: Str)
    ensures
        r@ == upper_of(s@),
{
    Str { chars: s.chars.iter().collect::<String>().to_uppercase().chars().collect() }
}

/// The lowercase mapping of the codepoint `c`, truncated to its first
/// codepoint when the mapping expands to several.
///
/// Relies on `char::to_lowercase`: its result depends on `c` alone and
/// always yields at least one codepoint, so `next` never returns `None`.
#[verifier::external_body]
pub fn toLowerChar(c: char) -> (r: char)
    ensures
        r == lower_char_of(c),
{
    c.to_lowercase().next().unwrap()
}

/// The uppercase mapping of the codepoint `c`, truncated to its first
/// codepoint when the mapping expands to several.
///
/// Relies on `char::to_uppercase`: its result depends on `c` alone and
/// always yields at least one codepoint, so `next` never returns `None`.
#[verifier::external_body]
pub fn toUpperChar(c: char) -> (r: char)
    ensures
        r == upper_char_of(c),
{
    c.to_uppercase().next().unwrap()
}

} // verus!
