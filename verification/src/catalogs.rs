//! The fixed name lists of the language: the built-in types, the standard
//! attributes and the section headings that set the kind of the fields below.

use vstd::prelude::*;
use crate::text::str_eq;

verus! {

/// The version of the parser, as the syntax tree reports it.
pub const PARSER_VERSION: &'static str = "0.4.0";

/// The version of the syntax tree's shape.
pub const AST_VERSION: &'static str = "1.0";

/// The texts of a list of strings.
pub open spec fn names(v: Seq<&'static str>) -> Seq<Seq<char>> {
    Seq::new(v.len(), |i: int| v[i]@)
}

/// The built-in types: primitives, semantic shorthands, structural types, and
/// `datetime`, which is deprecated and still accepted.
pub open spec fn type_names() -> Seq<Seq<char>> {
    seq![
        "string"@,
        "text"@,
        "integer"@,
        "long"@,
        "decimal"@,
        "float"@,
        "boolean"@,
        "date"@,
        "time"@,
        "timestamp"@,
        "identifier"@,
        "binary"@,
        "email"@,
        "phone"@,
        "url"@,
        "money"@,
        "percentage"@,
        "object"@,
        "json"@,
        "enum"@,
        "map"@,
        "datetime"@,
    ]
}

/// The standard attributes.
pub open spec fn standard_attribute_names() -> Seq<Seq<char>> {
    seq![
        "primary"@,
        "unique"@,
        "required"@,
        "index"@,
        "generated"@,
        "immutable"@,
        "reference"@,
        "fk"@,
        "relation"@,
        "on_update"@,
        "on_delete"@,
        "searchable"@,
        "description"@,
        "visibility"@,
        "min"@,
        "max"@,
        "validate"@,
        "not_null"@,
        "computed"@,
        "computed_raw"@,
        "lookup"@,
        "rollup"@,
        "from"@,
        "persisted"@,
        "public"@,
        "private"@,
        "materialized"@,
        "meta"@,
        "behavior"@,
        "override"@,
        "default_attribute"@,
    ]
}

/// The section headings that change the kind of the fields that follow.
pub open spec fn kind_section_names() -> Seq<Seq<char>> {
    seq!["Lookup"@, "Rollup"@, "Computed"@, "Computed from Rollup"@]
}

/// The built-in types, 22 names.
pub fn type_catalog() -> (r: Vec<&'static str>)
    ensures
        names(r@) == type_names(),
{
    let r = vec![
        "string",
        "text",
        "integer",
        "long",
        "decimal",
        "float",
        "boolean",
        "date",
        "time",
        "timestamp",
        "identifier",
        "binary",
        "email",
        "phone",
        "url",
        "money",
        "percentage",
        "object",
        "json",
        "enum",
        "map",
        "datetime",
    ];
    proof {
        assert(names(r@) =~= type_names());
    }
    r
}

/// The standard attributes, 31 names.
pub fn standard_attributes() -> (r: Vec<&'static str>)
    ensures
        names(r@) == standard_attribute_names(),
{
    let r = vec![
        "primary",
        "unique",
        "required",
        "index",
        "generated",
        "immutable",
        "reference",
        "fk",
        "relation",
        "on_update",
        "on_delete",
        "searchable",
        "description",
        "visibility",
        "min",
        "max",
        "validate",
        "not_null",
        "computed",
        "computed_raw",
        "lookup",
        "rollup",
        "from",
        "persisted",
        "public",
        "private",
        "materialized",
        "meta",
        "behavior",
        "override",
        "default_attribute",
    ];
    proof {
        assert(names(r@) =~= standard_attribute_names());
    }
    r
}

/// The kind-changing section headings, 4 names.
pub fn kind_sections() -> (r: Vec<&'static str>)
    ensures
        names(r@) == kind_section_names(),
{
    let r = vec!["Lookup", "Rollup", "Computed", "Computed from Rollup"];
    proof {
        assert(names(r@) =~= kind_section_names());
    }
    r
}

/// Whether `name` is one of `list`.
pub fn one_of(list: &Vec<&'static str>, name: &str) -> (r: bool)
    ensures
        r == names(list@).contains(name@),
{
    let mut i: usize = 0;
    while i < list.len()
        invariant
            i <= list@.len(),
            forall|j: int| 0 <= j < i ==> names(list@)[j] != name@,
        decreases list.len() - i,
    {
        if str_eq(list[i], name) {
            proof {
                assert(names(list@)[i as int] == name@);
            }
            return true;
        }
        i += 1;
    }
    false
}

/// Whether `name` is a built-in type.
pub fn is_catalog_type(name: &str) -> (r: bool)
    ensures
        r == type_names().contains(name@),
{
    one_of(&type_catalog(), name)
}

/// Whether `name` is a standard attribute.
pub fn is_standard_attribute(name: &str) -> (r: bool)
    ensures
        r == standard_attribute_names().contains(name@),
{
    one_of(&standard_attributes(), name)
}

/// Whether `name` is a heading that changes the kind of the fields below it.
pub fn is_kind_section(name: &str) -> (r: bool)
    ensures
        r == kind_section_names().contains(name@),
{
    one_of(&kind_sections(), name)
}

} // verus!
