//! The configured MCP servers, and where the configuration and the schema cache live.
use vstd::prelude::*;

use crate::table::NameTable;
use crate::text::concat3;

verus! {

/// How to launch one MCP server: a command, its arguments, and extra environment variables.
#[derive(Clone, Debug)]
pub struct McpServerConfig {
    pub command: String,
    pub args: Vec<String>,
    pub env: Option<NameTable<String>>,
}

/// The model of a server's launch settings.
pub struct ServerModel {
    pub command: Seq<char>,
    pub args: Seq<Seq<char>>,
    pub env: Option<Map<Seq<char>, Seq<char>>>,
}

impl DeepView for McpServerConfig {
    type V = ServerModel;

    open spec fn deep_view(&self) -> ServerModel {
        ServerModel {
            command: self.command@,
            args: self.args.deep_view(),
            env: match self.env {
                Some(t) => Some(t@),
                None => None,
            },
        }
    }
}

/// The configuration: the MCP servers by name.
#[derive(Clone, Debug)]
pub struct Config {
    pub mcp_servers: NameTable<McpServerConfig>,
}

impl Config {
    /// A configuration without servers (what a missing configuration file means).
    pub fn new() -> (res: Self)
        ensures
            res.mcp_servers@ == Map::<Seq<char>, ServerModel>::empty(),
    {
        Config { mcp_servers: NameTable::new() }
    }

    /// Adds server `name`, replacing any server of that name.
    pub fn add_server(&mut self, name: String, server: McpServerConfig)
        ensures
            final(self).mcp_servers@ == old(self).mcp_servers@.insert(name@, server.deep_view()),
    {
        self.mcp_servers.insert(name, server);
    }

    /// The server named `name`, if it is configured.
    pub fn get_server(&self, name: &str) -> (res: Option<&McpServerConfig>)
        ensures
            match res {
                Some(s) => self.mcp_servers@.contains_key(name@) && s.deep_view()
                    == self.mcp_servers@[name@],
                None => !self.mcp_servers@.contains_key(name@),
            },
    {
        self.mcp_servers.get(name)
    }

    /// The names of the configured servers, each once.
    pub fn server_names(&self) -> (res: Vec<String>)
        ensures
            forall|a: int, b: int| 0 <= a < b < res@.len() ==> res@[a]@ != res@[b]@,
            forall|k: Seq<char>|
                self.mcp_servers@.contains_key(k) <==> exists|a: int|
                    0 <= a < res@.len() && (#[trigger] res@[a])@ == k,
    {
        self.mcp_servers.names()
    }
}

/// Why a path under the home directory cannot be formed.
#[derive(Debug, PartialEq, Eq)]
pub enum ConfigError {
    /// `HOME` is not set.
    HomeNotSet,
}

/// `Path::join` on Unix: an absolute `rel` replaces `base`; otherwise `rel` is appended,
/// with a `/` between them where `base` is not empty and does not already end in one.
pub open spec fn join_path_spec(base: Seq<char>, rel: Seq<char>) -> Seq<char> {
    if rel.len() > 0 && rel[0] == '/' {
        rel
    } else if base.len() > 0 && base.last() != '/' {
        base + "/"@ + rel
    } else {
        base + rel
    }
}

/// Joins `rel` onto the directory path `base`, as `Path::join` does on Unix.
pub fn join_path(base: &str, rel: &str) -> (res: String)
    ensures
        res@ == join_path_spec(base@, rel@),
{
    let rn: usize = rel.unicode_len();
    if rn > 0 && rel.get_char(0) == '/' {
        return String::from_str(rel);
    }
    let bn: usize = base.unicode_len();
    if bn > 0 && base.get_char(bn - 1) != '/' {
        concat3(base, "/", rel)
    } else {
        String::from_str(base).concat(rel)
    }
}

/// Where the configuration file is: `MCPX_CONFIG` where it is set, else
/// `.config/mcpx/config.toml` under `HOME`; an error where neither is set.
pub open spec fn config_path_spec(
    mcpx_config: Option<Seq<char>>,
    home: Option<Seq<char>>,
) -> Result<Seq<char>, ConfigError> {
    match mcpx_config {
        Some(p) => Ok(p),
        None => match home {
            Some(h) => Ok(join_path_spec(h, ".config/mcpx/config.toml"@)),
            None => Err(ConfigError::HomeNotSet),
        },
    }
}

/// The path of the configuration file, from the values of `MCPX_CONFIG` and `HOME`.
pub fn config_path(mcpx_config: Option<String>, home: Option<String>) -> (res: Result<
    String,
    ConfigError,
>)
    ensures
        match config_path_spec(mcpx_config.deep_view(), home.deep_view()) {
            Ok(p) => res matches Ok(s) && s@ == p,
            Err(e) => res == Err::<String, ConfigError>(e),
        },
{
    match mcpx_config {
        Some(p) => Ok(p),
        None => match home {
            Some(h) => Ok(join_path(h.as_str(), ".config/mcpx/config.toml")),
            None => Err(ConfigError::HomeNotSet),
        },
    }
}

/// The directory that holds cached tool lists: `.cache/mcpx-rust/schemas` under `HOME`.
pub open spec fn cache_dir_spec(home: Option<Seq<char>>) -> Result<Seq<char>, ConfigError> {
    match home {
        Some(h) => Ok(join_path_spec(h, ".cache/mcpx-rust/schemas"@)),
        None => Err(ConfigError::HomeNotSet),
    }
}

/// The directory of cached tool lists, from the value of `HOME`.
pub fn cache_dir(home: Option<String>) -> (res: Result<String, ConfigError>)
    ensures
        match cache_dir_spec(home.deep_view()) {
            Ok(p) => res matches Ok(s) && s@ == p,
            Err(e) => res == Err::<String, ConfigError>(e),
        },
{
    match home {
        Some(h) => Ok(join_path(h.as_str(), ".cache/mcpx-rust/schemas")),
        None => Err(ConfigError::HomeNotSet),
    }
}

/// The file that caches the tool list of server `server_name`: `<server_name>.json` in
/// the cache directory.
pub fn cache_file(dir: &str, server_name: &str) -> (res: String)
    ensures
        res@ == join_path_spec(dir@, server_name@ + ".json"@),
{
    let file = String::from_str(server_name).concat(".json");
    join_path(dir, file.as_str())
}

/// How long, in seconds, a cached tool list is used: 24 hours.
pub const CACHE_LIFETIME_SECS: u64 = 24 * 3600;

/// Whether a cached tool list that was written `elapsed_secs` seconds ago is still used.
pub fn cache_is_fresh(elapsed_secs: u64) -> (res: bool)
    ensures
        res == (elapsed_secs <= CACHE_LIFETIME_SECS),
{
    elapsed_secs <= CACHE_LIFETIME_SECS
}

} // verus!

verus! {

/// Law: a server added under a name is what a lookup of that name then finds, and adding
/// it changes no other server.
pub proof fn law_added_server_is_found(
    servers: Map<Seq<char>, ServerModel>,
    name: Seq<char>,
    server: ServerModel,
    other: Seq<char>,
)
    ensures
        servers.insert(name, server).contains_key(name),
        servers.insert(name, server)[name] == server,
        other != name ==> (servers.insert(name, server).contains_key(other)
            == servers.contains_key(other)),
        other != name && servers.contains_key(other) ==> servers.insert(name, server)[other]
            == servers[other],
{
}

/// Law: where `MCPX_CONFIG` is set, it is the configuration path, whatever `HOME` holds.
pub proof fn law_config_variable_wins(path: Seq<char>, home: Option<Seq<char>>)
    ensures
        config_path_spec(Some(path), home) == Ok::<Seq<char>, ConfigError>(path),
{
}

/// Law: the cache file of a server whose name does not begin with `/` lies in the cache
/// directory: its path begins with the directory's path.
pub proof fn law_cache_file_in_cache_dir(dir: Seq<char>, server_name: Seq<char>)
    requires
        !(server_name.len() > 0 && server_name[0] == '/'),
    ensures
        join_path_spec(dir, server_name + ".json"@).len() >= dir.len(),
        join_path_spec(dir, server_name + ".json"@).take(dir.len() as int) == dir,
{
    let rel = server_name + ".json"@;
    if server_name.len() > 0 {
        assert(rel[0] == server_name[0]);
    } else {
        reveal_strlit(".json");
        assert(rel =~= ".json"@);
        assert(rel[0] == '.');
    }
    let j = join_path_spec(dir, rel);
    assert(j.take(dir.len() as int) =~= dir);
}

} // verus!
