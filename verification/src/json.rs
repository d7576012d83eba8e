//! What the library asks of `serde_json` and of std's Unicode case mapping.
use vstd::prelude::*;

verus! {

/// A JSON value built by `serde_json`; the library carries it without looking inside.
#[verifier::external_type_specification]
#[verifier::external_body]
pub struct ExJsonValue(serde_json::Value);

/// Whether `serde_json::from_str::<serde_json::Value>` accepts the text.
pub uninterp spec fn json_accepts(text: Seq<char>) -> bool;

/// The value that `serde_json::from_str::<serde_json::Value>` builds from an accepted text.
pub uninterp spec fn json_value_of(text: Seq<char>) -> serde_json::Value;

/// Calls `serde_json::from_str::<serde_json::Value>`. Claimed: it succeeds exactly on the
/// texts that `json_accepts` names, and then returns `json_value_of` the text; both are
/// functions of the text alone.
#[verifier::external_body]
pub(crate) fn parse_json(text: &str) -> (res: Option<serde_json::Value>)
    ensures
        res is Some <==> json_accepts(text@),
        res matches Some(v) ==> v == json_value_of(text@),
{
    serde_json::from_str::<serde_json::Value>(text).ok()
}

/// What `str::to_lowercase` returns for the text: its lowercase equivalent by the Unicode
/// `Lowercase` property, a function of the text alone.
pub uninterp spec fn lowercase_of(text: Seq<char>) -> Seq<char>;

/// Every character is ASCII.
pub open spec fn all_ascii(text: Seq<char>) -> bool {
    forall|i: int| 0 <= i < text.len() ==> (#[trigger] text[i] as u32) < 128
}

/// An ASCII letter `A`–`Z` as its lowercase letter; any other character unchanged.
pub open spec fn ascii_lower_char(c: char) -> char {
    if 'A' <= c && c <= 'Z' {
        ((c as u32) + 32) as char
    } else {
        c
    }
}

/// The text with `A`–`Z` mapped to `a`–`z`, character by character.
pub open spec fn ascii_lowercase(text: Seq<char>) -> Seq<char> {
    text.map_values(|c: char| ascii_lower_char(c))
}

/// Calls `str::to_lowercase`. Claimed: the result is `lowercase_of` of the argument; on
/// ASCII text, where Unicode's lowercase mapping is ASCII's, it maps `A`–`Z` to `a`–`z`
/// and keeps every other character.
#[verifier::external_body]
pub(crate) fn to_lowercase(text: &str) -> (res: String)
    ensures
        res@ == lowercase_of(text@),
        all_ascii(text@) ==> res@ == ascii_lowercase(text@),
{
    text.to_lowercase()
}

} // verus!
