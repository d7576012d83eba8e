# mcpx_rust

The verified core of `mcpx-rust`, a command-line program that turns the MCP servers
listed in `~/.config/mcpx/config.toml` (or the file named by `MCPX_CONFIG`) into
command-line tools.

- `src/` is the library, verified with Verus:
  - `text`, `number`, `float`: character-level string helpers, `i64` reading and the
    decimal float-literal grammar, each with an exact specification;
  - `table`: a name-keyed table whose view is a map (later settings replace earlier ones);
  - `json`: what the library asks of `serde_json` and of std's lowercase mapping;
  - `schema`, `coerce`, `arguments`: how the words after a tool's name become the
    argument object of a tool call, guided by the tool's input schema;
  - `config`: the configured servers, and the paths of the configuration and of the
    tool-list cache;
  - `cache`: reading a server's tool list back from its cache file;
  - `cli`: how the program's own arguments are prepared, what an invocation asks for,
    and the lines it prints.
- `app/` is the program: argument parsing with `clap`, the TOML file, the cache on disk,
  and the MCP client from `rust-mcp-sdk`.
- `tests/` runs the library on concrete inputs.
