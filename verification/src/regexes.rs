//! The calls into the `regex` crate and into `str`'s Unicode case mappings.
//!
//! Each regular expression is compiled from its pattern text at the call.
//! What a match returns is named by an uninterpreted function of the
//! pattern, the haystack and (for replacement) the replacement text; the
//! case mappings are named too, with their ASCII part stated.

use vstd::prelude::*;

verus! {

/// Text of capture group `group` of the leftmost-first match of `pattern`
/// in `haystack` (`None` when the pattern does not compile, there is no
/// match, or the group did not take part).
pub uninterp spec fn regex_group(pattern: Seq<char>, haystack: Seq<char>, group: nat) -> Option<
    Seq<char>,
>;

/// Whether `pattern` compiles and matches somewhere in `haystack`.
pub uninterp spec fn regex_found(pattern: Seq<char>, haystack: Seq<char>) -> bool;

/// `haystack` with every non-overlapping match of `pattern` replaced by the
/// expansion of `replacement` (`None` when the pattern does not compile).
pub uninterp spec fn regex_replaced(
    pattern: Seq<char>,
    haystack: Seq<char>,
    replacement: Seq<char>,
) -> Option<Seq<char>>;

/// `str::to_lowercase`: the Unicode lowercase mapping of every character.
pub uninterp spec fn lowercase(s: Seq<char>) -> Seq<char>;

/// `str::to_uppercase`: the Unicode uppercase mapping of every character.
pub uninterp spec fn uppercase(s: Seq<char>) -> Seq<char>;

/// `char::is_alphabetic`: whether the character has the Unicode
/// `Alphabetic` property.
pub uninterp spec fn alphabetic(c: char) -> bool;

/// All characters are ASCII.
pub open spec fn all_ascii(s: Seq<char>) -> bool {
    forall|i: int| 0 <= i < s.len() ==> (#[trigger] s[i] as u32) < 0x80
}

/// The ASCII lowercase of a character: `A` to `Z` become `a` to `z`.
pub open spec fn ascii_to_lower(c: char) -> char {
    if 'A' <= c && c <= 'Z' {
        ((c as u32) + 32) as char
    } else {
        c
    }
}

/// The ASCII uppercase of a character: `a` to `z` become `A` to `Z`.
pub open spec fn ascii_to_upper(c: char) -> char {
    if 'a' <= c && c <= 'z' {
        ((c as u32) - 32) as char
    } else {
        c
    }
}

/// Characters that are unsafe in file names on common platforms:
/// `< > : " / \ | ? *` and the control characters U+0000 to U+001F.
pub open spec fn is_unsafe_filename_char(c: char) -> bool {
    c == '<' || c == '>' || c == ':' || c == '"' || c == '/' || c == '\\' || c == '|' || c
        == '?' || c == '*' || (c as u32) <= 0x1F
}

/// Every unsafe file-name character replaced by `_`.
pub open spec fn replace_unsafe_chars(s: Seq<char>) -> Seq<char> {
    s.map_values(|c: char| if is_unsafe_filename_char(c) { '_' } else { c })
}

/// The pattern is the unsafe-character class and the replacement is `_`.
pub open spec fn is_unsafe_class_replacement(pattern: Seq<char>, replacement: Seq<char>) -> bool {
    pattern == unsafe_class_pattern() && replacement == seq!['_']
}

/// The pattern text of the character class of unsafe file-name characters.
pub open spec fn unsafe_class_pattern() -> Seq<char> {
    seq![
        '[', '<', '>', ':', '"', '/', '\\', '\\', '|', '?', '*', '\\', 'x', '0', '0', '-',
        '\\', 'x', '1', 'F', ']',
    ]
}

/// Compiles `pattern` and returns capture group `group` of its leftmost-first
/// match in `haystack` (`Regex::new`, `Regex::captures`, `Captures::get`).
/// The contract names the result only.
#[verifier::external_body]
pub(crate) fn regex_capture(pattern: &str, haystack: &str, group: usize) -> (r: Option<String>)
    ensures
        r.deep_view() == regex_group(pattern@, haystack@, group as nat),
{
    match regex::Regex::new(pattern) {
        Ok(re) => match re.captures(haystack) {
            Some(caps) => match caps.get(group) {
                Some(m) => Some(m.as_str().to_string()),
                None => None,
            },
            None => None,
        },
        Err(_) => None,
    }
}

/// Compiles `pattern` and tells whether it matches in `haystack`
/// (`Regex::new`, `Regex::is_match`). The contract names the result only.
#[verifier::external_body]
pub(crate) fn regex_is_match(pattern: &str, haystack: &str) -> (r: bool)
    ensures
        r == regex_found(pattern@, haystack@),
{
    match regex::Regex::new(pattern) {
        Ok(re) => re.is_match(haystack),
        Err(_) => false,
    }
}

/// Compiles `pattern` and replaces all its non-overlapping matches in
/// `haystack` by `replacement`, expanding `$` references in it
/// (`Regex::new`, `Regex::replace_all`). The contract names the result; the
/// one fact stated beside the name is the documented behaviour for the
/// single-character class of unsafe file-name characters and the literal
/// replacement `_`: each such character is replaced, nothing else changes.
/// Where a compiled pattern does not match, the text comes back unchanged.
#[verifier::external_body]
pub(crate) fn regex_replace_all(pattern: &str, haystack: &str, replacement: &str) -> (r: Option<String>)
    ensures
        r.deep_view() == regex_replaced(pattern@, haystack@, replacement@),
        !regex_found(pattern@, haystack@) ==> (r matches Some(t) ==> t@ == haystack@),
        is_unsafe_class_replacement(pattern@, replacement@) ==> r.deep_view() == Some(
            replace_unsafe_chars(haystack@),
        ),
{
    match regex::Regex::new(pattern) {
        Ok(re) => Some(re.replace_all(haystack, replacement).into_owned()),
        Err(_) => None,
    }
}

/// `str::to_lowercase`. The contract names the result, and states the
/// mapping for ASCII text: letters `A` to `Z` lowercased, the rest kept.
#[verifier::external_body]
pub(crate) fn to_lowercase(s: &str) -> (r: String)
    ensures
        r@ == lowercase(s@),
        all_ascii(s@) ==> r@ == s@.map_values(|c: char| ascii_to_lower(c)),
{
    s.to_lowercase()
}

/// `str::to_uppercase`. The contract names the result, and states the
/// mapping for ASCII text: letters `a` to `z` uppercased, the rest kept.
#[verifier::external_body]
pub(crate) fn to_uppercase(s: &str) -> (r: String)
    ensures
        r@ == uppercase(s@),
        all_ascii(s@) ==> r@ == s@.map_values(|c: char| ascii_to_upper(c)),
{
    s.to_uppercase()
}

/// `char::is_alphabetic`. The contract names the result only.
#[verifier::external_body]
pub(crate) fn is_alphabetic(c: char) -> (r: bool)
    ensures
        r == alphabetic(c),
{
    c.is_alphabetic()
}

} // verus!
