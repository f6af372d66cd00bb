//! The patterns of the source language, in the syntax of the `regex` crate.

use vstd::prelude::*;

verus! {

/// A level-one heading and its text.
pub const RE_H1: &'static str = "^# (.+)$";

/// A level-two heading and its text: the start of an element.
pub const RE_H2: &'static str = "^## (.+)$";

/// A level-three heading and its text: a section.
pub const RE_H3: &'static str = "^### (.+)$";

/// A horizontal rule: three hyphens or more.
pub const RE_HR: &'static str = "^-{3,}$";

/// A block quote: its indentation and its text.
pub const RE_BLOCKQUOTE: &'static str = "^(\\s*)> (.+)$";

/// A list item: its indentation and its content.
pub const RE_LIST_ITEM: &'static str = "^(\\s*)- (.+)$";

/// A line of white space only.
pub const RE_BLANK: &'static str = "^\\s*$";

/// A heading with a type indicator: name (with label), indicator, rest.
pub const RE_TYPE_INDICATOR: &'static str = "^(@?[\\w][\\w.]*(?:\\([^)]*\\))?)\\s*::(\\w+)(.*)$";

/// A model heading: name (with label), parents, attributes.
pub const RE_MODEL_DEF: &'static str =
    "^([\\w][\\w.]*(?:\\([^)]*\\))?)\\s*(?::\\s*(.+?))?(\\s+@.+)?$";

/// A field: name, label, and what follows the colon.
pub const RE_FIELD_NAME: &'static str = "^([\\w]+)(?:\\(([^)]*)\\))?\\s*(?::\\s*(.+))?$";

/// The type at the start of a field's rest: name, generic arguments,
/// parameters, and the three modifier slots `?`, `[]`, `?`.
pub const RE_TYPE_PART: &'static str =
    "^([\\w][\\w.]*)(?:<([^>]+)>)?(?:\\(([^)]*)\\))?(\\?)?(\\[\\])?(\\?)?";

/// A framework attribute: brackets between back quotes.
pub const RE_FRAMEWORK_ATTR: &'static str = "`\\[([^\\]]+)\\]`";

/// A comment at the end of a field line.
pub const RE_INLINE_COMMENT: &'static str = "\\s+#\\s+(.+)$";

/// A name with a label in parentheses.
pub const RE_NAME_LABEL: &'static str = "^([\\w][\\w.]*)\\(([^)]*)\\)$";

/// The namespace declaration inside a level-one heading.
pub const RE_NAMESPACE: &'static str = "^Namespace:\\s*(.+)$";

/// An import directive and its path.
pub const RE_IMPORT: &'static str = "^@import\\s+[\"'](.+?)[\"']\\s*$";

/// An enum value with its description: name, label, description.
pub const RE_ENUM_VALUE: &'static str =
    "^([\\w]+)(?:\\(([^)]*)\\))?\\s+\"((?:[^\"\\\\]|\\\\.)*)\"$";

/// A nested `key: value` item.
pub const RE_NESTED_KV: &'static str = "^([\\w]+)\\s*:\\s*(.+)$";

/// The parents after the type indicator of a heading.
pub const RE_H2_INHERIT: &'static str = "^:\\s*(.+?)(?:\\s+@|\\s*\"|\\s*$)";

/// A description in double quotes inside a heading.
pub const RE_H2_DESC: &'static str = "\"([^\"]+)\"";

/// An attribute of a model heading: name and arguments.
pub const RE_MODEL_ATTR: &'static str = "@([\\w]+)(?:\\(([^)]*)\\))?";

/// A text that is one double-quoted string.
pub const RE_QUOTE_STR: &'static str = "^\"(.*)\"$";

/// A framework attribute's content: name and arguments.
pub const RE_CUSTOM_ATTR: &'static str = "^([A-Za-z_][\\w.]*)(?:\\((.+)\\))?$";

/// The aggregate of a rollup: function and field.
pub const RE_AGG: &'static str = "^(\\w+)(?:\\((\\w+)\\))?$";

/// The `where` argument of a rollup: `where: "condition"`, or the same
/// without the quotes, as the argument list of an attribute hands it on.
pub const RE_WHERE: &'static str = "^where:\\s*\"?(.*?)\"?$";

/// The platform of a raw computed expression.
pub const RE_PLATFORM: &'static str = "platform\\s*:\\s*[\"']?([^\"'\\s]+)[\"']?";

/// The foreign key named by `via` in a relation.
pub const RE_VIA: &'static str = "\\bvia\\s+(\\w+)";

} // verus!
