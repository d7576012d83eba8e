//! Reading the words after a tool's name into the argument object of a tool call.
use vstd::prelude::*;

use crate::coerce::{coerce_value, coercion, realizes, ArgModel, ArgValue};
use crate::schema::{is_flat_schema, is_flat_spec, property_type_spec, SchemaModel, ToolSchema};
use crate::table::NameTable;
use crate::text::{
    concat3, has_dash_prefix, has_long_option_prefix, is_long_option, split_once,
    split_once_char, starts_with_dash, trim_leading, trim_start_char,
};

verus! {

/// One command-line word, or pair of words, as the argument reader sees it.
pub enum ArgToken {
    /// An option: `--key=value`, `--key value`, or a bare `--key` (whose value is `true`).
    Opt(Seq<char>, Seq<char>),
    /// Any other word.
    Positional(Seq<char>),
}

/// The texts of a list of strings.
pub open spec fn word_views(words: Seq<String>) -> Seq<Seq<char>> {
    words.map_values(|w: String| w@)
}

/// The tokens that the words from position `i` on are read into. A word that begins with
/// `--` is an option; its key is the word without its leading dashes. A key holding `=` is
/// split at the first `=` into key and value; otherwise the next word is the value, unless
/// there is none or it begins with `-`, in which case the value is `true`.
pub open spec fn tokens_from(args: Seq<Seq<char>>, i: int) -> Seq<ArgToken>
    decreases args.len() - i,
{
    if i < 0 || i >= args.len() {
        Seq::empty()
    } else if is_long_option(args[i]) {
        let key = trim_leading(args[i], '-');
        match split_once(key, '=') {
            Some((k, v)) => seq![ArgToken::Opt(k, v)] + tokens_from(args, i + 1),
            None => if i + 1 < args.len() && !starts_with_dash(args[i + 1]) {
                seq![ArgToken::Opt(key, args[i + 1])] + tokens_from(args, i + 2)
            } else {
                seq![ArgToken::Opt(key, "true"@)] + tokens_from(args, i + 1)
            },
        }
    } else {
        seq![ArgToken::Positional(args[i])] + tokens_from(args, i + 1)
    }
}

/// The tokens that a tool's words are read into.
pub open spec fn tokens(args: Seq<Seq<char>>) -> Seq<ArgToken> {
    tokens_from(args, 0)
}

/// The word that a token becomes in a flat tool's `args` list: an option as `key=value`,
/// any other word unchanged.
pub open spec fn flat_word(t: ArgToken) -> Seq<char> {
    match t {
        ArgToken::Opt(k, v) => k + "="@ + v,
        ArgToken::Positional(w) => w,
    }
}

/// The `args` list of a flat tool.
pub open spec fn flat_words(args: Seq<Seq<char>>) -> Seq<Seq<char>> {
    tokens(args).map_values(|t: ArgToken| flat_word(t))
}

/// The key and raw value that a token sets in a structured tool's arguments: an option
/// sets its key; another word sets something only where it holds `=`.
pub open spec fn assignment(t: ArgToken) -> Option<(Seq<char>, Seq<char>)> {
    match t {
        ArgToken::Opt(k, v) => Some((k, v)),
        ArgToken::Positional(w) => split_once(w, '='),
    }
}

/// The raw value that a sequence of tokens leaves each key with; a later setting wins.
pub open spec fn assignments_map(ts: Seq<ArgToken>) -> Map<Seq<char>, Seq<char>>
    decreases ts.len(),
{
    if ts.len() == 0 {
        Map::empty()
    } else {
        let m = assignments_map(ts.drop_last());
        match assignment(ts.last()) {
            Some((k, v)) => m.insert(k, v),
            None => m,
        }
    }
}

/// The arguments of a flat tool: one key `args` with the list of words.
pub open spec fn flat_arguments(args: Seq<Seq<char>>) -> Map<Seq<char>, ArgModel> {
    Map::empty().insert("args"@, ArgModel::TextList(flat_words(args)))
}

/// `res` holds exactly the keys of `raw`, each with its raw value read by the type that
/// the schema declares for the key.
pub open spec fn coerced_from(
    res: Map<Seq<char>, ArgModel>,
    schema: SchemaModel,
    raw: Map<Seq<char>, Seq<char>>,
) -> bool {
    &&& res.dom() == raw.dom()
    &&& forall|k: Seq<char>|
        #[trigger] raw.contains_key(k) ==> realizes(res[k], coercion(raw[k], property_type_spec(schema, k)))
}

/// The arguments of a tool call: each key with its value. The values are the library's
/// own `ArgValue`s rather than `serde_json` values, since float text becomes a JSON
/// number only through a float reading that the library does not hold; the program turns
/// the table into the call's `serde_json::Map`.
pub type ArgumentMap = NameTable<ArgValue>;

/// A token, as read from the words.
pub enum RawToken {
    Opt(String, String),
    Positional(String),
}

impl DeepView for RawToken {
    type V = ArgToken;

    open spec fn deep_view(&self) -> ArgToken {
        match self {
            RawToken::Opt(k, v) => ArgToken::Opt(k@, v@),
            RawToken::Positional(w) => ArgToken::Positional(w@),
        }
    }
}

/// Reads the token that begins at word `i`, and the position after it.
pub fn read_token(args: &Vec<String>, i: usize) -> (res: (RawToken, usize))
    requires
        i < args@.len(),
    ensures
        i < res.1 <= args@.len(),
        tokens_from(word_views(args@), i as int) == seq![res.0.deep_view()] + tokens_from(
            word_views(args@),
            res.1 as int,
        ),
{
    let ghost words = word_views(args@);
    let n: usize = args.len();
    let arg: &str = args[i].as_str();
    assert(words[i as int] == arg@);
    if has_long_option_prefix(arg) {
        let key = trim_start_char(arg, '-');
        match split_once_char(key, '=') {
            Some((k, v)) => (RawToken::Opt(String::from_str(k), String::from_str(v)), i + 1),
            None => {
                if i + 1 < n && !has_dash_prefix(args[i + 1].as_str()) {
                    assert(words[i + 1] == args@[i + 1]@);
                    (RawToken::Opt(String::from_str(key), args[i + 1].clone()), i + 2)
                } else {
                    proof {
                        if i + 1 < args@.len() {
                            assert(words[i + 1] == args@[i + 1]@);
                        }
                    }
                    (RawToken::Opt(String::from_str(key), String::from_str("true")), i + 1)
                }
            },
        }
    } else {
        (RawToken::Positional(args[i].clone()), i + 1)
    }
}

/// Turns the words after a tool's name into the arguments of the call. A flat tool (one
/// whose schema declares `args` as an `array`) gets all words as one list under `args`;
/// any other tool gets each key that an option or a `key=value` word sets, with its value
/// read by the type the schema declares for it. Other words are dropped there.
pub fn normalize_arguments(schema: &ToolSchema, raw_args: &Vec<String>) -> (res: ArgumentMap)
    ensures
        is_flat_spec(schema@) ==> res@ == flat_arguments(word_views(raw_args@)),
        !is_flat_spec(schema@) ==> coerced_from(
            res@,
            schema@,
            assignments_map(tokens(word_views(raw_args@))),
        ),
{
    let ghost words = word_views(raw_args@);
    let n: usize = raw_args.len();
    let ghost mut done: Seq<ArgToken> = Seq::empty();
    let mut i: usize = 0;
    assert(tokens(words) =~= done + tokens_from(words, 0));
    if is_flat_schema(schema) {
        let mut list: Vec<String> = Vec::new();
        while i < n
            invariant
                i <= n,
                n == raw_args@.len(),
                words == word_views(raw_args@),
                tokens(words) == done + tokens_from(words, i as int),
                list.deep_view() == done.map_values(|t: ArgToken| flat_word(t)),
            decreases n - i,
        {
            let (tok, next) = read_token(raw_args, i);
            let ghost t = tok.deep_view();
            let ghost old_list = list.deep_view();
            let word = match tok {
                RawToken::Opt(k, v) => concat3(k.as_str(), "=", v.as_str()),
                RawToken::Positional(w) => w,
            };
            assert(word@ == flat_word(t));
            list.push(word);
            proof {
                assert(tokens(words) =~= done.push(t) + tokens_from(words, next as int));
                assert(list.deep_view() =~= old_list.push(flat_word(t)));
                assert(done.push(t).map_values(|t: ArgToken| flat_word(t)) =~= old_list.push(
                    flat_word(t),
                ));
                done = done.push(t);
            }
            i = next;
        }
        assert(done =~= tokens(words));
        let mut res: ArgumentMap = NameTable::new();
        res.insert(String::from_str("args"), ArgValue::TextList(list));
        assert(res@ =~= flat_arguments(words));
        res
    } else {
        let mut res: ArgumentMap = NameTable::new();
        assert(res@ =~= Map::<Seq<char>, ArgModel>::empty());
        assert(assignments_map(done) =~= Map::<Seq<char>, Seq<char>>::empty());
        while i < n
            invariant
                i <= n,
                n == raw_args@.len(),
                words == word_views(raw_args@),
                tokens(words) == done + tokens_from(words, i as int),
                coerced_from(res@, schema@, assignments_map(done)),
            decreases n - i,
        {
            let (tok, next) = read_token(raw_args, i);
            let ghost t = tok.deep_view();
            let ghost old_res = res@;
            let ghost raw = assignments_map(done);
            match tok {
                RawToken::Opt(k, v) => {
                    let value = coerce_value(v.as_str(), schema, k.as_str());
                    let ghost kv = k@;
                    let ghost vv = v@;
                    res.insert(k, value);
                    proof {
                        assert(done.push(t).drop_last() =~= done);
                        assert(assignments_map(done.push(t)) == raw.insert(kv, vv));
                        assert(res@.dom() =~= raw.insert(kv, vv).dom());
                    }
                },
                RawToken::Positional(w) => {
                    match split_once_char(w.as_str(), '=') {
                        Some((k, v)) => {
                            let value = coerce_value(v, schema, k);
                            let ghost kv = k@;
                            let ghost vv = v@;
                            res.insert(String::from_str(k), value);
                            proof {
                                assert(done.push(t).drop_last() =~= done);
                                assert(assignments_map(done.push(t)) == raw.insert(kv, vv));
                                assert(res@.dom() =~= raw.insert(kv, vv).dom());
                            }
                        },
                        None => {
                            proof {
                                assert(done.push(t).drop_last() =~= done);
                            }
                        },
                    }
                },
            }
            proof {
                assert(tokens(words) =~= done.push(t) + tokens_from(words, next as int));
                done = done.push(t);
            }
            i = next;
        }
        assert(done =~= tokens(words));
        res
    }
}

/// Reading words and then one more that begins with `-` gives the tokens of the words,
/// then the token of that last word alone: such a word is never taken as a value.
pub proof fn lemma_tokens_push_dash_word(args: Seq<Seq<char>>, w: Seq<char>, i: int)
    requires
        0 <= i <= args.len(),
        starts_with_dash(w),
    ensures
        tokens_from(args.push(w), i) == tokens_from(args, i) + tokens(seq![w]),
    decreases args.len() - i,
{
    let b = args.push(w);
    if i == args.len() {
        assert(b[i] == w);
        assert(seq![w][0] == w);
        assert(tokens_from(b, i + 1) == Seq::<ArgToken>::empty());
        assert(tokens_from(seq![w], 1) == Seq::<ArgToken>::empty());
        assert(tokens_from(args, i) == Seq::<ArgToken>::empty());
        assert(tokens_from(b, i) =~= tokens_from(args, i) + tokens(seq![w]));
    } else {
        assert(b[i] == args[i]);
        if i + 1 < args.len() {
            assert(b[i + 1] == args[i + 1]);
        } else {
            assert(b[i + 1] == w);
        }
        let key = trim_leading(args[i], '-');
        if is_long_option(args[i]) && split_once(key, '=') is None && i + 1 < args.len()
            && !starts_with_dash(args[i + 1]) {
            lemma_tokens_push_dash_word(args, w, i + 2);
            let t = ArgToken::Opt(key, args[i + 1]);
            assert(tokens_from(b, i) =~= seq![t] + tokens_from(b, i + 2));
            assert(tokens_from(args, i) =~= seq![t] + tokens_from(args, i + 2));
        } else {
            lemma_tokens_push_dash_word(args, w, i + 1);
        }
        assert(tokens_from(b, i) =~= tokens_from(args, i) + tokens(seq![w]));
    }
}

/// Reading a word before other words shifts the reading of those words by one place.
pub proof fn lemma_tokens_shift(w: Seq<char>, args: Seq<Seq<char>>, i: int)
    requires
        0 <= i <= args.len(),
    ensures
        tokens_from(seq![w] + args, i + 1) == tokens_from(args, i),
    decreases args.len() - i,
{
    let b = seq![w] + args;
    if i < args.len() {
        assert(b[i + 1] == args[i]);
        if i + 1 < args.len() {
            assert(b[i + 2] == args[i + 1]);
        }
        lemma_tokens_shift(w, args, i + 1);
        if i + 2 <= args.len() {
            lemma_tokens_shift(w, args, i + 2);
        }
    }
}

/// A token that sets nothing, read first, changes nothing.
pub proof fn lemma_assignments_prepend_nothing(t: ArgToken, ts: Seq<ArgToken>)
    requires
        assignment(t) is None,
    ensures
        assignments_map(seq![t] + ts) == assignments_map(ts),
    decreases ts.len(),
{
    if ts.len() == 0 {
        assert((seq![t] + ts).drop_last() =~= Seq::<ArgToken>::empty());
        assert(assignments_map(Seq::<ArgToken>::empty()) =~= Map::<Seq<char>, Seq<char>>::empty());
    } else {
        assert((seq![t] + ts).drop_last() =~= seq![t] + ts.drop_last());
        assert((seq![t] + ts).last() == ts.last());
        lemma_assignments_prepend_nothing(t, ts.drop_last());
    }
}

/// Law: a `--key=value` word sets `key` to `value` whatever words come before it. In a
/// structured call it overrides any earlier setting of `key` and leaves every other key as
/// it was; in a flat call it adds `key=value` at the end of the list.
pub proof fn law_later_option_wins(args: Seq<Seq<char>>, w: Seq<char>, k: Seq<char>, v: Seq<char>)
    requires
        is_long_option(w),
        split_once(trim_leading(w, '-'), '=') == Some((k, v)),
    ensures
        assignments_map(tokens(args.push(w))) == assignments_map(tokens(args)).insert(k, v),
        flat_words(args.push(w)) == flat_words(args).push(k + "="@ + v),
{
    lemma_tokens_push_dash_word(args, w, 0);
    assert(seq![w][0] == w);
    assert(tokens_from(seq![w], 1) == Seq::<ArgToken>::empty());
    assert(tokens(seq![w]) =~= seq![ArgToken::Opt(k, v)]);
    let ts = tokens(args.push(w));
    assert(ts =~= tokens(args).push(ArgToken::Opt(k, v)));
    assert(ts.drop_last() =~= tokens(args));
    assert(flat_words(args.push(w)) =~= flat_words(args).push(k + "="@ + v));
}

/// Law: a first word that does not begin with `--` is kept as it is at the head of a flat
/// call's list; in a structured call, where it holds no `=`, it is dropped and changes
/// nothing.
pub proof fn law_leading_plain_word(w: Seq<char>, args: Seq<Seq<char>>)
    requires
        !is_long_option(w),
    ensures
        flat_words(seq![w] + args) == seq![w] + flat_words(args),
        split_once(w, '=') is None ==> assignments_map(tokens(seq![w] + args)) == assignments_map(
            tokens(args),
        ),
{
    let b = seq![w] + args;
    assert(b[0] == w);
    lemma_tokens_shift(w, args, 0);
    assert(tokens(b) =~= seq![ArgToken::Positional(w)] + tokens(args));
    assert(flat_words(b) =~= seq![w] + flat_words(args));
    if split_once(w, '=') is None {
        lemma_assignments_prepend_nothing(ArgToken::Positional(w), tokens(args));
    }
}

/// `--` followed by `key`: the word that sets `key` as an option.
pub open spec fn option_word(key: Seq<char>) -> Seq<char> {
    "--"@ + key
}

proof fn lemma_option_word_key(key: Seq<char>)
    requires
        !starts_with_dash(key),
        split_once(key, '=') is None,
    ensures
        is_long_option(option_word(key)),
        trim_leading(option_word(key), '-') == key,
{
    reveal_strlit("--");
    let w = option_word(key);
    assert(w[0] == '-' && w[1] == '-');
    assert(w.drop_first().drop_first() =~= key);
    assert(w.drop_first()[0] == '-');
    if key.len() > 0 {
        assert(w.drop_first().drop_first()[0] == key[0]);
    }
    assert(crate::text::leading_count(key, '-') == 0);
    assert(crate::text::leading_count(w.drop_first().drop_first(), '-') == 0);
    assert(crate::text::leading_count(w.drop_first(), '-') == 1);
    assert(crate::text::leading_count(w, '-') == 2);
    assert(w.skip(2) =~= key);
}

/// Law: `--key word`, where `key` holds no `=` (and does not itself begin with `-`) and
/// `word` does not begin with `-`, sets `key` to `word`, whatever `key` is and whatever
/// words follow: in a flat call it is listed as `key=word`, and in a structured call
/// made of these two words alone `key` is the one key set, to `word`.
pub proof fn law_option_takes_next_word(
    key: Seq<char>,
    word: Seq<char>,
    rest: Seq<Seq<char>>,
)
    requires
        !starts_with_dash(key),
        split_once(key, '=') is None,
        !starts_with_dash(word),
    ensures
        flat_words(seq![option_word(key), word] + rest) == seq![key + "="@ + word] + flat_words(rest),
        assignments_map(tokens(seq![option_word(key), word])) == Map::<Seq<char>, Seq<char>>::empty().insert(
            key,
            word,
        ),
{
    lemma_option_word_key(key);
    let o = option_word(key);
    let args = seq![o, word] + rest;
    assert(args[0] == o);
    assert(args[1] == word);
    lemma_tokens_shift(o, seq![word] + rest, 1);
    lemma_tokens_shift(word, rest, 0);
    assert(seq![o] + (seq![word] + rest) =~= args);
    assert(tokens_from(args, 2) == tokens(rest));
    assert(tokens(args) =~= seq![ArgToken::Opt(key, word)] + tokens(rest));
    assert(flat_words(args) =~= seq![key + "="@ + word] + flat_words(rest));
    let pair = seq![o, word];
    assert(pair[0] == o && pair[1] == word);
    assert(tokens_from(pair, 2) == Seq::<ArgToken>::empty());
    assert(tokens(pair) =~= seq![ArgToken::Opt(key, word)]);
    let ts = tokens(pair);
    assert(ts.drop_last() =~= Seq::<ArgToken>::empty());
    assert(assignments_map(Seq::<ArgToken>::empty()) =~= Map::<Seq<char>, Seq<char>>::empty());
}

} // verus!
