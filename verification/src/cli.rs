//! The program's own decisions: how its arguments are prepared before parsing, what an
//! invocation asks for, and how tools are found and listed.
use vstd::prelude::*;

use crate::arguments::word_views;
use crate::config::Config;
use crate::text::{concat3, has_dash_prefix, starts_with_dash, str_eq};

verus! {

/// `--help` or `-h`.
pub open spec fn is_help_flag(w: Seq<char>) -> bool {
    w == "--help"@ || w == "-h"@
}

/// `--help`, `-h` or the word `help`.
pub open spec fn is_help_request(w: Seq<char>) -> bool {
    is_help_flag(w) || w == "help"@
}

pub open spec fn not_help_flag() -> spec_fn(Seq<char>) -> bool {
    |w: Seq<char>| !is_help_flag(w)
}

pub open spec fn not_help_request() -> spec_fn(Seq<char>) -> bool {
    |w: Seq<char>| !is_help_request(w)
}

/// A positional word that names a server or a tool: it does not begin with `-` and is
/// not the word `help`.
pub open spec fn names_something() -> spec_fn(Seq<char>) -> bool {
    |w: Seq<char>| !starts_with_dash(w) && w != "help"@
}

/// Help together with `--json` asks for a tool's input schema.
pub open spec fn wants_schema(args: Seq<Seq<char>>) -> bool {
    &&& exists|i: int| 0 <= i < args.len() && is_help_flag(#[trigger] args[i])
    &&& exists|i: int| 0 <= i < args.len() && #[trigger] args[i] == "--json"@
}

/// The words after the program's name that name a server or a tool.
pub open spec fn named_words(args: Seq<Seq<char>>) -> Seq<Seq<char>> {
    if args.len() == 0 {
        Seq::empty()
    } else {
        args.drop_first().filter(names_something())
    }
}

/// Help asked for with exactly one server named (and that not `list`) is the server's
/// own help: its tool list.
pub open spec fn forwards_help(args: Seq<Seq<char>>) -> bool {
    &&& exists|i: int| 0 <= i < args.len() && is_help_request(#[trigger] args[i])
    &&& named_words(args).len() == 1
    &&& named_words(args)[0] != "list"@
}

/// The words that are handed to the argument parser.
pub open spec fn prepared_words(args: Seq<Seq<char>>) -> Seq<Seq<char>> {
    if wants_schema(args) {
        args.filter(not_help_flag())
    } else if forwards_help(args) {
        args.filter(not_help_request())
    } else {
        args
    }
}

/// The program's arguments, made ready for parsing.
pub struct PreparedArgs {
    /// The words to parse.
    pub args: Vec<String>,
    /// Whether a tool's input schema is asked for (help together with `--json`).
    pub schema_mode: bool,
}

/// The tests that the preparation makes of single words.
enum WordTest {
    HelpFlag,
    HelpRequest,
    Json,
}

spec fn passes(test: WordTest, w: Seq<char>) -> bool {
    match test {
        WordTest::HelpFlag => is_help_flag(w),
        WordTest::HelpRequest => is_help_request(w),
        WordTest::Json => w == "--json"@,
    }
}

/// Whether some word passes `test`.
fn any_word(args: &Vec<String>, test: WordTest) -> (res: bool)
    ensures
        res == exists|i: int| 0 <= i < args@.len() && passes(test, #[trigger] args@[i]@),
{
    let n: usize = args.len();
    for i in 0..n
        invariant
            n == args@.len(),
            forall|j: int| 0 <= j < i ==> !passes(test, #[trigger] args@[j]@),
    {
        let w: &str = args[i].as_str();
        let flag = str_eq(w, "--help") || str_eq(w, "-h");
        let hit = match test {
            WordTest::HelpFlag => flag,
            WordTest::HelpRequest => flag || str_eq(w, "help"),
            WordTest::Json => str_eq(w, "--json"),
        };
        if hit {
            return true;
        }
    }
    false
}

/// The words, without those that `drop_help_word` and the help flags select.
fn without_help(args: Vec<String>, drop_help_word: bool) -> (res: Vec<String>)
    ensures
        word_views(res@) == word_views(args@).filter(
            if drop_help_word {
                not_help_request()
            } else {
                not_help_flag()
            },
        ),
{
    let ghost pred = if drop_help_word {
        not_help_request()
    } else {
        not_help_flag()
    };
    let ghost words = word_views(args@);
    let n: usize = args.len();
    let mut res: Vec<String> = Vec::new();
    assert(words.take(0) =~= Seq::<Seq<char>>::empty());
    for i in 0..n
        invariant
            n == args@.len(),
            words == word_views(args@),
            pred == (if drop_help_word {
                not_help_request()
            } else {
                not_help_flag()
            }),
            word_views(res@) == words.take(i as int).filter(pred),
    {
        let w: &str = args[i].as_str();
        let flag = str_eq(w, "--help") || str_eq(w, "-h");
        let drop = flag || (drop_help_word && str_eq(w, "help"));
        let ghost before = word_views(res@);
        proof {
            reveal_with_fuel(Seq::<Seq<char>>::filter, 1);
            assert(words.take(i + 1).drop_last() =~= words.take(i as int));
            assert(words.take(i + 1).last() == args@[i as int]@);
        }
        if !drop {
            res.push(args[i].clone());
            assert(word_views(res@) =~= before.push(args@[i as int]@));
        }
    }
    assert(words.take(n as int) =~= words);
    res
}

/// The words after the program's name that name a server or a tool.
fn named_after_program(args: &Vec<String>) -> (res: Vec<String>)
    ensures
        word_views(res@) == named_words(word_views(args@)),
{
    let ghost words = word_views(args@);
    let n: usize = args.len();
    let mut res: Vec<String> = Vec::new();
    if n == 0 {
        return res;
    }
    let ghost rest = words.drop_first();
    assert(rest.take(0) =~= Seq::<Seq<char>>::empty());
    for i in 1..n
        invariant
            n == args@.len(),
            n >= 1,
            words == word_views(args@),
            rest == words.drop_first(),
            word_views(res@) == rest.take(i - 1).filter(names_something()),
    {
        let w: &str = args[i].as_str();
        let keep = !has_dash_prefix(w) && !str_eq(w, "help");
        let ghost before = word_views(res@);
        proof {
            reveal_with_fuel(Seq::<Seq<char>>::filter, 1);
            assert(rest.take(i as int).drop_last() =~= rest.take(i - 1));
            assert(rest.take(i as int).last() == args@[i as int]@);
        }
        if keep {
            res.push(args[i].clone());
            assert(word_views(res@) =~= before.push(args@[i as int]@));
        }
    }
    assert(rest.take(n - 1) =~= rest);
    res
}

/// Prepares the program's arguments (its name first) for parsing. Help together with
/// `--json` asks for a tool's input schema, and the help flags are taken out. Otherwise,
/// where help is asked for and exactly one server is named (not `list`), the help words
/// are taken out, so that the server's tool list is shown in place of the program's help.
pub fn prepare_args(args: Vec<String>) -> (res: PreparedArgs)
    ensures
        res.schema_mode == wants_schema(word_views(args@)),
        word_views(res.args@) == prepared_words(word_views(args@)),
{
    let ghost words = word_views(args@);
    proof {
        assert forall|i: int| 0 <= i < args@.len() implies #[trigger] words[i] == args@[i]@ by {}
    }
    let has_help = any_word(&args, WordTest::HelpFlag);
    let has_json = any_word(&args, WordTest::Json);
    assert(has_help == exists|i: int| 0 <= i < words.len() && is_help_flag(#[trigger] words[i])) by {
        if has_help {
            let i: int = choose|i: int| 0 <= i < args@.len() && passes(WordTest::HelpFlag, #[trigger] args@[i]@);
            assert(words[i] == args@[i]@);
        }
    }
    assert(has_json == exists|i: int| 0 <= i < words.len() && #[trigger] words[i] == "--json"@) by {
        if has_json {
            let i: int = choose|i: int| 0 <= i < args@.len() && passes(WordTest::Json, #[trigger] args@[i]@);
            assert(words[i] == args@[i]@);
        }
    }
    if has_help && has_json {
        return PreparedArgs { args: without_help(args, false), schema_mode: true };
    }
    let asks_help = any_word(&args, WordTest::HelpRequest);
    assert(asks_help == exists|i: int| 0 <= i < words.len() && is_help_request(#[trigger] words[i]))
        by {
        if asks_help {
            let i: int = choose|i: int| 0 <= i < args@.len() && passes(WordTest::HelpRequest, #[trigger] args@[i]@);
            assert(words[i] == args@[i]@);
        }
    }
    if asks_help {
        let named = named_after_program(&args);
        if named.len() == 1 && !str_eq(named[0].as_str(), "list") {
            assert(word_views(named@)[0] == named@[0]@);
            return PreparedArgs { args: without_help(args, true), schema_mode: false };
        }
        proof {
            if named@.len() == 1 {
                assert(word_views(named@)[0] == named@[0]@);
            }
        }
    }
    PreparedArgs { args, schema_mode: false }
}

/// What an invocation asks for.
pub enum Action {
    /// `list`: print the configured servers.
    ListServers,
    /// No server named: print a usage line.
    ShowUsage,
    /// A schema asked for without a tool: print the program's help.
    PrintHelp,
    /// Print the input schema of a tool of a server.
    ExtractSchema { server: String, tool: String },
    /// Call a tool of a server, or list the server's tools where no tool is named.
    RunTool { server: String, tool: Option<String> },
}

/// The model of an [`Action`].
pub enum ActionModel {
    ListServers,
    ShowUsage,
    PrintHelp,
    ExtractSchema { server: Seq<char>, tool: Seq<char> },
    RunTool { server: Seq<char>, tool: Option<Seq<char>> },
}

impl DeepView for Action {
    type V = ActionModel;

    open spec fn deep_view(&self) -> ActionModel {
        match self {
            Action::ListServers => ActionModel::ListServers,
            Action::ShowUsage => ActionModel::ShowUsage,
            Action::PrintHelp => ActionModel::PrintHelp,
            Action::ExtractSchema { server, tool } => ActionModel::ExtractSchema {
                server: server@,
                tool: tool@,
            },
            Action::RunTool { server, tool } => ActionModel::RunTool {
                server: server@,
                tool: tool.deep_view(),
            },
        }
    }
}

/// A server was named that the configuration does not hold.
#[derive(Debug)]
pub struct UnknownServer {
    pub name: String,
}

/// What an invocation asks for: `list` lists the servers; without a server, the usage;
/// a server that is not configured is an error; in schema mode, the named tool's schema
/// (or the program's help where no tool is named); otherwise the tool call or tool list.
pub open spec fn plan_spec(
    servers: Set<Seq<char>>,
    list_command: bool,
    server: Option<Seq<char>>,
    tool: Option<Seq<char>>,
    schema_mode: bool,
) -> Result<ActionModel, Seq<char>> {
    if list_command {
        Ok(ActionModel::ListServers)
    } else {
        match server {
            None => Ok(ActionModel::ShowUsage),
            Some(s) => if !servers.contains(s) {
                Err(s)
            } else if schema_mode {
                match tool {
                    Some(t) => Ok(ActionModel::ExtractSchema { server: s, tool: t }),
                    None => Ok(ActionModel::PrintHelp),
                }
            } else {
                Ok(ActionModel::RunTool { server: s, tool })
            },
        }
    }
}

/// Decides what an invocation asks for, from the parsed command line and the configuration.
pub fn plan_action(
    config: &Config,
    list_command: bool,
    server: Option<String>,
    tool: Option<String>,
    schema_mode: bool,
) -> (res: Result<Action, UnknownServer>)
    ensures
        match plan_spec(
            config.mcp_servers@.dom(),
            list_command,
            server.deep_view(),
            tool.deep_view(),
            schema_mode,
        ) {
            Ok(m) => res matches Ok(a) && a.deep_view() == m,
            Err(n) => res matches Err(e) && e.name@ == n,
        },
{
    if list_command {
        return Ok(Action::ListServers);
    }
    match server {
        None => Ok(Action::ShowUsage),
        Some(s) => {
            if config.get_server(s.as_str()).is_none() {
                Err(UnknownServer { name: s })
            } else if schema_mode {
                match tool {
                    Some(t) => Ok(Action::ExtractSchema { server: s, tool: t }),
                    None => Ok(Action::PrintHelp),
                }
            } else {
                Ok(Action::RunTool { server: s, tool })
            }
        },
    }
}

/// The position of the first tool called `name` in a server's tool list.
pub fn find_tool(names: &Vec<String>, name: &str) -> (res: Option<usize>)
    ensures
        match res {
            Some(i) => i < names@.len() && names@[i as int]@ == name@ && forall|j: int|
                0 <= j < i ==> (#[trigger] names@[j])@ != name@,
            None => forall|j: int| 0 <= j < names@.len() ==> (#[trigger] names@[j])@ != name@,
        },
{
    let n: usize = names.len();
    for i in 0..n
        invariant
            n == names@.len(),
            forall|j: int| 0 <= j < i ==> (#[trigger] names@[j])@ != name@,
    {
        if str_eq(names[i].as_str(), name) {
            return Some(i);
        }
    }
    None
}

/// Whether a cached tool list can serve a call of tool `name`: it does where it lists a
/// tool of that name; otherwise the list is fetched from the server again.
pub fn cache_serves(cached_names: &Vec<String>, name: &str) -> (res: bool)
    ensures
        res == exists|j: int| 0 <= j < cached_names@.len() && (#[trigger] cached_names@[j])@ == name@,
{
    find_tool(cached_names, name).is_some()
}

/// Whether a tool call's result reports failure (its `isError` flag, false where absent);
/// the program then exits with status 1.
pub fn call_failed(is_error: Option<bool>) -> (res: bool)
    ensures
        res == (is_error == Some(true)),
{
    match is_error {
        Some(b) => b,
        None => false,
    }
}

/// The line that lists a configured server.
pub fn server_line(name: &str) -> (res: String)
    ensures
        res@ == "  - "@ + name@,
{
    String::from_str("  - ").concat(name)
}

/// The line that lists a tool with its description (empty where it has none).
pub fn tool_line(name: &str, description: Option<String>) -> (res: String)
    ensures
        res@ == "  - "@ + name@ + ": "@ + match description {
            Some(d) => d@,
            None => Seq::<char>::empty(),
        },
{
    let head = concat3("  - ", name, ": ");
    match description {
        Some(d) => head.concat(d.as_str()),
        None => head,
    }
}

/// The line that stands for an image in a tool's result.
pub fn image_line(mime_type: &str) -> (res: String)
    ensures
        res@ == "[Image: "@ + mime_type@ + "]"@,
{
    concat3("[Image: ", mime_type, "]")
}

/// Law: help together with `--json` leaves no help flag among the words to parse, and
/// keeps every other word.
pub proof fn law_schema_request_drops_help_flags(args: Seq<Seq<char>>)
    requires
        wants_schema(args),
    ensures
        forall|i: int|
            0 <= i < prepared_words(args).len() ==> !is_help_flag(
                #[trigger] prepared_words(args)[i],
            ) && args.contains(prepared_words(args)[i]),
        forall|i: int|
            0 <= i < args.len() && !is_help_flag(#[trigger] args[i]) ==> prepared_words(
                args,
            ).contains(args[i]),
{
    let p = prepared_words(args);
    assert forall|i: int| 0 <= i < p.len() implies !is_help_flag(#[trigger] p[i]) && args.contains(
        p[i],
    ) by {
        args.lemma_filter_pred(not_help_flag(), i);
        assert(p.contains(p[i]));
        args.lemma_filter_contains_rev(not_help_flag(), p[i]);
    }
    assert forall|i: int| 0 <= i < args.len() && !is_help_flag(#[trigger] args[i]) implies p.contains(
        args[i],
    ) by {
        args.lemma_filter_contains(not_help_flag(), i);
    }
}

/// Law: `<program> <server> --help` (or `-h`, or `help`) shows the server's tool list: the
/// help word is taken out and no schema is asked for.
pub proof fn law_server_help_lists_tools(prog: Seq<char>, server: Seq<char>, h: Seq<char>)
    requires
        is_help_request(h),
        !is_help_request(prog),
        prog != "--json"@,
        !starts_with_dash(server),
        server != "help"@,
        server != "list"@,
    ensures
        !wants_schema(seq![prog, server, h]),
        prepared_words(seq![prog, server, h]) == seq![prog, server],
{
    reveal_strlit("--help");
    reveal_strlit("-h");
    reveal_strlit("--json");
    reveal_strlit("help");
    let args = seq![prog, server, h];
    assert("--json"@.len() == 6);
    assert("-h"@.len() == 2);
    assert("help"@.len() == 4);
    assert("--help"@[2] == 'h');
    assert("--json"@[2] == 'j');
    assert(h != "--json"@) by {
        if h == "--help"@ {
            assert(h[2] != "--json"@[2]);
        }
    }
    assert(server != "--json"@);
    assert(!is_help_flag(server));
    assert(!(exists|i: int| 0 <= i < args.len() && #[trigger] args[i] == "--json"@)) by {
        assert forall|i: int| 0 <= i < args.len() implies #[trigger] args[i] != "--json"@ by {}
    }
    reveal_with_fuel(Seq::<Seq<char>>::filter, 3);
    assert(args.drop_first() =~= seq![server, h]);
    assert(seq![server, h].drop_last() =~= seq![server]);
    assert(seq![server].drop_last() =~= Seq::<Seq<char>>::empty());
    assert(!names_something()(h));
    assert(named_words(args) =~= seq![server]);
    assert(args[2] == h);
    assert(forwards_help(args));
    assert(args.drop_last() =~= seq![prog, server]);
    assert(seq![prog, server].drop_last() =~= seq![prog]);
    assert(seq![prog].drop_last() =~= Seq::<Seq<char>>::empty());
    assert(server != "--help"@) by {
        if server.len() == 6 {
            assert(server[0] != "--help"@[0]);
        }
    }
    assert(server != "-h"@) by {
        if server.len() == 2 {
            assert(server[0] != "-h"@[0]);
        }
    }
    assert(not_help_request()(server));
    assert(not_help_request()(prog));
    assert(!not_help_request()(h));
    assert(args.last() == h);
    assert(args.filter(not_help_request()) =~= args.drop_last().filter(not_help_request()));
    assert(args.drop_last().filter(not_help_request()) =~= seq![prog].filter(not_help_request()).push(server));
    assert(seq![prog].filter(not_help_request()) =~= seq![prog]);
    assert(args.filter(not_help_request()) =~= seq![prog, server]);
}

/// Law: `--json` together with either help flag, `--help` or `-h`, wherever they stand,
/// asks for a schema.
pub proof fn law_either_help_flag_with_json_asks_for_schema(args: Seq<Seq<char>>, i: int, j: int)
    ensures
        0 <= i < args.len() && 0 <= j < args.len() && (args[i] == "--help"@ || args[i] == "-h"@)
            && args[j] == "--json"@ ==> wants_schema(args),
        wants_schema(args.push("-h"@).push("--json"@)),
        wants_schema(args.push("--help"@).push("--json"@)),
{
    let a1 = args.push("-h"@).push("--json"@);
    assert(a1[args.len() as int] == "-h"@);
    assert(a1[args.len() + 1 as int] == "--json"@);
    let a2 = args.push("--help"@).push("--json"@);
    assert(a2[args.len() as int] == "--help"@);
    assert(a2[args.len() + 1 as int] == "--json"@);
}

/// Law: a named server that is not configured is an error, whether or not a tool is named
/// and whether or not a schema is asked for; only `list` goes ahead without looking.
pub proof fn law_unknown_server_is_an_error(
    servers: Set<Seq<char>>,
    s: Seq<char>,
    tool: Option<Seq<char>>,
    schema_mode: bool,
)
    requires
        !servers.contains(s),
    ensures
        plan_spec(servers, false, Some(s), tool, schema_mode) == Err::<ActionModel, Seq<char>>(s),
        plan_spec(servers, true, Some(s), tool, schema_mode) is Ok,
{
}

} // verus!
