//! M3L is a schema modeling language written in a restricted dialect of
//! Markdown. This crate is its front end: a lexer, a parser, a resolver that
//! merges the files of a project, and a validator, with the lint rules that
//! work on the resolved tree, the JSON form of the tree in both directions,
//! and the tools that format, compare and draw a tree.
//!
//! Every function has a contract over the mathematical value of its
//! arguments and result (`deep_view`). What holds of the library as a whole
//! is proved in `laws`, `kinds`, `locations`, `severities`, `cycles`, `json`
//! and `decode`.

pub mod attrs;
pub mod catalogs;
pub mod cycles;
pub mod decode;
pub mod diff;
pub mod field_line;
pub mod field_node;
pub mod format;
pub mod grammar;
pub mod graph;
pub mod imports;
pub mod json;
pub mod kinds;
pub mod laws;
pub mod lexer;
pub mod lint;
pub mod locations;
pub mod number;
pub mod order;
pub mod output;
pub mod parser;
pub mod parser_laws;
pub mod pattern;
pub mod pipeline;
pub mod report;
pub mod resolver;
pub mod rules;
pub mod scan;
pub mod severities;
pub mod sections;
pub mod text;
pub mod types;
pub mod validator;
pub mod values;

pub use attrs::parse_attr_args_string;
pub use catalogs::{AST_VERSION, PARSER_VERSION};
pub use field_line::parse_type_and_attrs;
pub use imports::detect_circular_imports;
pub use lexer::lex;
pub use parser::{parse_string, parse_tokens};
pub use pipeline::{build_ast, parse, parse_multi, validate_content};
pub use resolver::resolve;
pub use types::{
    AttrArgValue, AttributeRegistryEntry, CodeBlock, ComputedDef, CustomAttribute,
    CustomAttributeParsed, DefaultValueType, Diagnostic, DiagnosticSeverity, EnumNode, EnumValue,
    FieldAttribute, FieldKind, FieldNode, JoinDef, JsonMember, JsonValue, LookupDef, M3lAst,
    M3lConfig, M3lFile, ModelNode, ModelType, NumberLit, ParamValue, ParseOptions, ParsedFile,
    ProjectInfo, RawAttribute, RefreshDef, RollupDef, Sections, SourceLocation, Token, TokenData,
    TokenType, ValidateJsonOptions, ValidateOptions, ValidateResult, ViewSourceDef,
};
pub use validator::validate;
pub use decode::m3l_ast_from_json;
pub use diff::run_diff;
pub use format::{format_ast, run_format};
pub use graph::run_analyze;
pub use json::m3l_ast_to_json;
pub use output::{parse_multi_to_json, parse_to_json, validate_to_json};
