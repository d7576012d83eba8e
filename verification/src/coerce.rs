//! Turning the text of one argument into a value, guided by the property's declared type.
use vstd::prelude::*;

use crate::float::{float_literal, is_float_literal};
use crate::json::{
    all_ascii, ascii_lowercase, json_accepts, json_value_of, lowercase_of, parse_json, to_lowercase,
};
use crate::number::{parse_i64, parse_i64_spec};
use crate::schema::{property_type_spec, ToolSchema};
use crate::text::str_eq;

verus! {

/// The value that one argument becomes.
#[derive(Debug, PartialEq)]
pub enum ArgValue {
    /// A boolean written as a word (`true`/`yes`/`1`, `false`/`no`/`0`).
    Bool(bool),
    /// A number that reads as an `i64`.
    Integer(i64),
    /// Text given for a `number`/`integer` property that is a decimal float literal but not
    /// an `i64`: it becomes a JSON number, the nearest `f64`, where that is finite, and a
    /// JSON string where the literal overflows `f64`.
    NumberText(String),
    /// The JSON value that the text parses to.
    Json(serde_json::Value),
    /// The text itself, as a JSON string.
    Text(String),
    /// A list of strings (the `args` of a flat tool).
    TextList(Vec<String>),
}

/// The model of an [`ArgValue`], with texts as character sequences.
pub enum ArgModel {
    Bool(bool),
    Integer(i64),
    NumberText(Seq<char>),
    Json(serde_json::Value),
    Text(Seq<char>),
    TextList(Seq<Seq<char>>),
}

impl DeepView for ArgValue {
    type V = ArgModel;

    open spec fn deep_view(&self) -> ArgModel {
        match self {
            ArgValue::Bool(b) => ArgModel::Bool(*b),
            ArgValue::Integer(n) => ArgModel::Integer(*n),
            ArgValue::NumberText(t) => ArgModel::NumberText(t@),
            ArgValue::Json(v) => ArgModel::Json(*v),
            ArgValue::Text(t) => ArgModel::Text(t@),
            ArgValue::TextList(l) => ArgModel::TextList(l.deep_view()),
        }
    }
}

/// What an argument's text is to become, before any JSON parsing.
pub enum Coercion {
    Bool(bool),
    Integer(i64),
    NumberText(Seq<char>),
    /// The text itself, as a string.
    Text(Seq<char>),
    /// The JSON value of the text where it parses as JSON, else the text as a string.
    JsonOrText(Seq<char>),
}

/// The boolean that a lowercased word stands for, if any.
pub open spec fn boolean_word_spec(lowered: Seq<char>) -> Option<bool> {
    if lowered == "true"@ || lowered == "yes"@ || lowered == "1"@ {
        Some(true)
    } else if lowered == "false"@ || lowered == "no"@ || lowered == "0"@ {
        Some(false)
    } else {
        None
    }
}

/// The lowercase form of a text, as `str::to_lowercase` gives it: ASCII letters mapped
/// one by one on ASCII text, Unicode's mapping (`lowercase_of`) on any other.
pub open spec fn lowered(value: Seq<char>) -> Seq<char> {
    if all_ascii(value) {
        ascii_lowercase(value)
    } else {
        lowercase_of(value)
    }
}

/// How the text `value` is read for a property whose declared type is `declared`.
pub open spec fn coercion(value: Seq<char>, declared: Option<Seq<char>>) -> Coercion {
    match declared {
        Some(t) => if t == "boolean"@ {
            match boolean_word_spec(lowered(value)) {
                Some(b) => Coercion::Bool(b),
                None => Coercion::JsonOrText(value),
            }
        } else if t == "number"@ || t == "integer"@ {
            match parse_i64_spec(value) {
                Some(n) => Coercion::Integer(n),
                None => if float_literal(value) {
                    Coercion::NumberText(value)
                } else {
                    Coercion::Text(value)
                },
            }
        } else {
            Coercion::JsonOrText(value)
        },
        None => Coercion::JsonOrText(value),
    }
}

/// `v` is what the coercion `c` yields.
pub open spec fn realizes(v: ArgModel, c: Coercion) -> bool {
    match c {
        Coercion::Bool(b) => v == ArgModel::Bool(b),
        Coercion::Integer(n) => v == ArgModel::Integer(n),
        Coercion::NumberText(t) => v == ArgModel::NumberText(t),
        Coercion::Text(t) => v == ArgModel::Text(t),
        Coercion::JsonOrText(t) => if json_accepts(t) {
            v == ArgModel::Json(json_value_of(t))
        } else {
            v == ArgModel::Text(t)
        },
    }
}

/// The boolean that a lowercased word stands for: `true`, `yes` and `1` are true;
/// `false`, `no` and `0` are false.
pub fn boolean_word(lowered: &str) -> (res: Option<bool>)
    ensures
        res == boolean_word_spec(lowered@),
{
    if str_eq(lowered, "true") || str_eq(lowered, "yes") || str_eq(lowered, "1") {
        Some(true)
    } else if str_eq(lowered, "false") || str_eq(lowered, "no") || str_eq(lowered, "0") {
        Some(false)
    } else {
        None
    }
}

/// The value of `value` given the result of parsing it as JSON: the parsed value where
/// there is one, else `value` as a string.
pub fn json_or_text_of(value: &str, parsed: Option<serde_json::Value>) -> (res: ArgValue)
    ensures
        match parsed {
            Some(v) => res.deep_view() == ArgModel::Json(v),
            None => res.deep_view() == ArgModel::Text(value@),
        },
{
    match parsed {
        Some(v) => ArgValue::Json(v),
        None => ArgValue::Text(String::from_str(value)),
    }
}

/// The JSON value of `value` where it parses as JSON, else `value` as a string.
pub fn json_or_text(value: &str) -> (res: ArgValue)
    ensures
        realizes(res.deep_view(), Coercion::JsonOrText(value@)),
{
    json_or_text_of(value, parse_json(value))
}

/// Reads the text of argument `key` by the type that `schema` declares for it: booleans
/// by word; numbers as `i64` where they read as one, as float text where they are a
/// decimal float literal, else as a string; anything else as JSON where it parses, else
/// as a string.
pub fn coerce_value(value: &str, schema: &ToolSchema, key: &str) -> (res: ArgValue)
    ensures
        realizes(res.deep_view(), coercion(value@, property_type_spec(schema@, key@))),
{
    match schema.property_type(key) {
        Some(t) => {
            if str_eq(t, "boolean") {
                let lower_text = to_lowercase(value);
                match boolean_word(lower_text.as_str()) {
                    Some(b) => ArgValue::Bool(b),
                    None => json_or_text(value),
                }
            } else if str_eq(t, "number") || str_eq(t, "integer") {
                match parse_i64(value) {
                    Some(n) => ArgValue::Integer(n),
                    None => if is_float_literal(value) {
                        ArgValue::NumberText(String::from_str(value))
                    } else {
                        ArgValue::Text(String::from_str(value))
                    },
                }
            } else {
                json_or_text(value)
            }
        },
        None => json_or_text(value),
    }
}

} // verus!

verus! {

/// Law: a value for a key that the schema does not declare as `boolean`, `number` or
/// `integer` is read as JSON where it parses as JSON, and is otherwise kept as a string.
pub proof fn law_undeclared_value_json_or_text(value: Seq<char>, declared: Option<Seq<char>>)
    requires
        declared != Some("boolean"@),
        declared != Some("number"@),
        declared != Some("integer"@),
    ensures
        coercion(value, declared) == Coercion::JsonOrText(value),
{
}

/// Law: a value for a `number` or `integer` key that reads as an `i64` becomes that integer.
pub proof fn law_integer_value(value: Seq<char>, declared: Seq<char>, n: i64)
    requires
        declared == "number"@ || declared == "integer"@,
        parse_i64_spec(value) == Some(n),
    ensures
        coercion(value, Some(declared)) == Coercion::Integer(n),
{
    reveal_strlit("boolean");
    reveal_strlit("number");
    reveal_strlit("integer");
    assert("boolean"@ != "number"@) by {
        assert("boolean"@.len() != "number"@.len());
    }
    assert("boolean"@ != "integer"@) by {
        assert("boolean"@[0] != "integer"@[0]);
    }
}

/// Law: text for a `number` or `integer` key that is neither an `i64` nor a decimal float
/// literal (such as `true`, `abc`, `inf` or `NaN`) stays a string.
pub proof fn law_non_number_text_stays_text(value: Seq<char>, declared: Seq<char>)
    requires
        declared == "number"@ || declared == "integer"@,
        parse_i64_spec(value) is None,
        !float_literal(value),
    ensures
        coercion(value, Some(declared)) == Coercion::Text(value),
{
    reveal_strlit("boolean");
    reveal_strlit("number");
    reveal_strlit("integer");
    assert("boolean"@ != "number"@) by {
        assert("boolean"@.len() != "number"@.len());
    }
    assert("boolean"@ != "integer"@) by {
        assert("boolean"@[0] != "integer"@[0]);
    }
}

} // verus!
