//! The part of a tool's input schema that argument handling reads.
use vstd::prelude::*;

use crate::table::NameTable;
use crate::text::str_eq;

verus! {

/// A tool's input schema, as far as it decides how arguments are read: whether it has a
/// `properties` object, and for each property the string under its `type` key, if any.
pub struct ToolSchema {
    properties: Option<NameTable<Option<String>>>,
}

/// The model of a schema: `None` without `properties`; otherwise each property's declared
/// type (`None` where the property has no string `type`).
pub type SchemaModel = Option<Map<Seq<char>, Option<Seq<char>>>>;

impl View for ToolSchema {
    type V = SchemaModel;

    closed spec fn view(&self) -> SchemaModel {
        match self.properties {
            Some(t) => Some(t@),
            None => None,
        }
    }
}

/// The declared type of property `key`: the string under `properties.<key>.type`.
pub open spec fn property_type_spec(schema: SchemaModel, key: Seq<char>) -> Option<Seq<char>> {
    match schema {
        Some(m) => if m.contains_key(key) {
            m[key]
        } else {
            None
        },
        None => None,
    }
}

/// A schema is flat when its `args` property is declared with type `array`: such a tool
/// takes all its arguments as one list of strings.
pub open spec fn is_flat_spec(schema: SchemaModel) -> bool {
    property_type_spec(schema, "args"@) == Some("array"@)
}

impl ToolSchema {
    /// A schema without a `properties` object.
    pub fn without_properties() -> (res: Self)
        ensures
            res@ == None::<Map<Seq<char>, Option<Seq<char>>>>,
    {
        ToolSchema { properties: None }
    }

    /// A schema with an empty `properties` object.
    pub fn with_properties() -> (res: Self)
        ensures
            res@ == Some(Map::<Seq<char>, Option<Seq<char>>>::empty()),
    {
        ToolSchema { properties: Some(NameTable::new()) }
    }

    /// Declares property `name`, with the given type string or none; a `properties`
    /// object is created where there was none.
    pub fn add_property(&mut self, name: String, declared: Option<String>)
        ensures
            final(self)@ == Some(
                match old(self)@ {
                    Some(m) => m,
                    None => Map::empty(),
                }.insert(name@, declared.deep_view()),
            ),
    {
        let mut table = match self.properties.take() {
            Some(t) => t,
            None => NameTable::new(),
        };
        table.insert(name, declared);
        self.properties = Some(table);
    }

    /// The declared type of property `key`.
    pub fn property_type(&self, key: &str) -> (res: Option<&str>)
        ensures
            match res {
                Some(t) => property_type_spec(self@, key@) == Some(t@),
                None => property_type_spec(self@, key@) is None,
            },
    {
        match &self.properties {
            Some(t) => match t.get(key) {
                Some(Some(s)) => Some(s.as_str()),
                _ => None,
            },
            None => None,
        }
    }
}

/// Whether the tool takes its arguments as one flat list (`args` of type `array`).
pub fn is_flat_schema(schema: &ToolSchema) -> (res: bool)
    ensures
        res == is_flat_spec(schema@),
{
    match schema.property_type("args") {
        Some(t) => str_eq(t, "array"),
        None => false,
    }
}

/// Law: a schema is flat exactly when it declares `args` with type `array`; declaring,
/// changing or removing any other property never changes whether it is flat.
pub proof fn law_flat_depends_on_args_alone(
    m: Map<Seq<char>, Option<Seq<char>>>,
    k: Seq<char>,
    declared: Option<Seq<char>>,
)
    requires
        k != "args"@,
    ensures
        is_flat_spec(Some(m)) <==> (m.contains_key("args"@) && m["args"@] == Some("array"@)),
        is_flat_spec(Some(m.insert(k, declared))) == is_flat_spec(Some(m)),
        is_flat_spec(Some(m.remove(k))) == is_flat_spec(Some(m)),
        !is_flat_spec(None),
{
}

} // verus!
