//! Verified core of `mcpx-rust`: the logic that turns MCP servers into command-line tools.
//!
//! The library holds what the command-line program decides and computes: where the
//! configuration and the schema cache live, how raw command-line words become the
//! argument object of a tool call, how values are coerced by the tool's input schema,
//! and how the program's own arguments are prepared before they are parsed.

pub mod arguments;
pub mod cache;
pub mod cli;
pub mod coerce;
pub mod config;
pub mod float;
pub mod json;
pub mod number;
pub mod schema;
pub mod table;
pub mod text;
