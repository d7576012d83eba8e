//! Reading back a server's tool list from the text of its cache file.
use vstd::prelude::*;

verus! {

/// A server's tool list as `rust-mcp-sdk` holds it; the library reads only its tools' names.
#[verifier::external_type_specification]
#[verifier::external_body]
pub struct ExListToolsResult(rust_mcp_sdk::schema::ListToolsResult);

/// Whether `serde_json::from_str::<ListToolsResult>` accepts the text.
pub uninterp spec fn tool_list_accepts(text: Seq<char>) -> bool;

/// The list that `serde_json::from_str::<ListToolsResult>` reads from an accepted text.
pub uninterp spec fn tool_list_of(text: Seq<char>) -> rust_mcp_sdk::schema::ListToolsResult;

/// The names of the tools, in order, of the list that `serde_json::from_str` reads from an
/// accepted text.
pub uninterp spec fn tool_list_names(text: Seq<char>) -> Seq<Seq<char>>;

/// Calls `serde_json::from_str::<ListToolsResult>` and hands the list back with its tools'
/// names. Claimed: it succeeds exactly on the texts that `tool_list_accepts` names; the
/// list is then `tool_list_of` the text and the names are `tool_list_names` of it; all
/// three are functions of the text alone.
#[verifier::external_body]
pub(crate) fn parse_tool_list(text: &str) -> (res: Option<
    (rust_mcp_sdk::schema::ListToolsResult, Vec<String>),
>)
    ensures
        res is Some <==> tool_list_accepts(text@),
        res matches Some((list, _)) ==> list == tool_list_of(text@),
        res matches Some((_, names)) ==> names.deep_view() == tool_list_names(text@),
{
    serde_json::from_str::<rust_mcp_sdk::schema::ListToolsResult>(text).ok().map(|list| {
        let names = list.tools.iter().map(|t| t.name.clone()).collect();
        (list, names)
    })
}

/// Why a cached tool list cannot be used.
#[derive(Debug, PartialEq, Eq)]
pub enum CacheError {
    /// The cache file does not hold a tool list.
    Corrupt,
}

/// The tool list, with its tools' names, given the result of parsing a cache file: an
/// error where the text held no tool list.
pub fn cached_tools_from(
    parsed: Option<(rust_mcp_sdk::schema::ListToolsResult, Vec<String>)>,
) -> (res: Result<(rust_mcp_sdk::schema::ListToolsResult, Vec<String>), CacheError>)
    ensures
        match parsed {
            Some(p) => res == Ok::<(rust_mcp_sdk::schema::ListToolsResult, Vec<String>), CacheError>(p),
            None => res == Err::<(rust_mcp_sdk::schema::ListToolsResult, Vec<String>), CacheError>(
                CacheError::Corrupt,
            ),
        },
{
    match parsed {
        Some(p) => Ok(p),
        None => Err(CacheError::Corrupt),
    }
}

/// Reads back the tool list that a fresh cache file holds: an error exactly where the text
/// is no tool list; otherwise the list that the text holds, with its tools' names in order.
pub fn read_cached_tools(text: &str) -> (res: Result<
    (rust_mcp_sdk::schema::ListToolsResult, Vec<String>),
    CacheError,
>)
    ensures
        res is Err <==> !tool_list_accepts(text@),
        res matches Err(e) ==> e == CacheError::Corrupt,
        res matches Ok((list, _)) ==> list == tool_list_of(text@),
        res matches Ok((_, names)) ==> names.deep_view() == tool_list_names(text@),
{
    cached_tools_from(parse_tool_list(text))
}

} // verus!
