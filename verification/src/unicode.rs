//! Text operations of std that rest on the Unicode character tables.
use vstd::prelude::*;

verus! {

/// The lowercase form of `s`, as `str::to_lowercase` gives it (Unicode
/// `Lowercase_Mapping`, with the final-sigma rule).
pub uninterp spec fn spec_to_lowercase(s: Seq<char>) -> Seq<char>;

/// Whether `c` is alphabetic or numeric in the Unicode sense, as
/// `char::is_alphanumeric` tells.
pub uninterp spec fn spec_is_alphanumeric(c: char) -> bool;

/// A text made of ASCII characters.
pub open spec fn is_ascii_text(s: Seq<char>) -> bool {
    forall|i: int| 0 <= i < s.len() ==> (#[trigger] s[i] as u32) < 0x80
}

/// The lowercase of an ASCII character: `A` to `Z` become `a` to `z`, every
/// other character stays.
pub open spec fn ascii_lower(c: char) -> char {
    if 'A' <= c && c <= 'Z' {
        ((c as u32) + 32) as char
    } else {
        c
    }
}

/// The lowercase form of `s` as `str::to_lowercase` gives it: on ASCII text
/// each letter lowered, character by character; on other text, the named
/// Unicode mapping.
pub open spec fn lowercase(s: Seq<char>) -> Seq<char> {
    if is_ascii_text(s) {
        s.map_values(|c: char| ascii_lower(c))
    } else {
        spec_to_lowercase(s)
    }
}

/// Calls `str::to_lowercase` on the string made of `s`. std defines the
/// lowercase by Unicode's `Lowercase` mapping, which lowers the ASCII letters
/// `A` to `Z` to `a` to `z` and leaves every other ASCII character as it is;
/// the contract states that for ASCII text, and names the result on other
/// text (a function of `s` alone).
#[verifier::external_body]
pub(crate) fn to_lowercase(s: &[char]) -> (r: Vec<char>)
    ensures
        is_ascii_text(s@) ==> r@ == s@.map_values(|c: char| ascii_lower(c)),
        !is_ascii_text(s@) ==> r@ == spec_to_lowercase(s@),
{
    s.iter().collect::<String>().to_lowercase().chars().collect()
}

/// Calls `char::is_alphanumeric`. The contract names the result.
#[verifier::external_body]
pub(crate) fn is_alphanumeric(c: char) -> (b: bool)
    ensures
        b == spec_is_alphanumeric(c),
{
    c.is_alphanumeric()
}

} // verus!
