//! The parser: a small state machine over the tokens of one file. A heading
//! starts an element and files the one before it; the lines below a heading
//! fill the element that is open.

use vstd::prelude::*;
use crate::field_line::{group_or_empty, text_or_empty};
use crate::field_node::{build_field_node, field_attrs, field_node, parse_raw_attributes};
use crate::lexer::{lex, lexed, quoted_more};
use crate::number::{is_number, is_number_text};
use crate::pattern::{found, group_text};
use crate::sections::{
    handle_directive, handle_section_item, item_text, nested_in_enum, nested_in_model,
    nested_item_in_enum, nested_item_in_model, new_source, quote_caps, read_item_text, section_item,
    source_of, token_name, with_directive,
};
use crate::text::{
    chars_eq, contains_sub, find_char, find_from, find_sub, find_sub_from, from_chars, has_prefix,
    has_sub, lowercase, push_all, split, split_trimmed, starts_with, str_eq, strip_chars,
    to_chars, to_lowercase, trim, trim_chars, trim_end_of, trim_range, trim_start_of,
    trimmed_nonempty,
};
use crate::types::{
    clone_opt_string, clone_vec_string, field_view, AttrArgValue, AttrArgView, AttrDef, AttrDefView,
    AttributeRegistryEntry, AttributeRegistryEntryView, EnumNode, EnumNodeView, EnumValue,
    EnumValueView, FieldKind, FieldNodeView, JsonValue, JsonView, ModelNode, ModelNodeView,
    ModelType, NumberLit, ParsedFile, ParsedFileView, Sections, SourceLocation, SourceLocationView,
    Token, TokenData, TokenDataView, TokenType, TokenView, ViewSourceDefView,
};

verus! {

/// The element that is being read.
pub enum CurrentElement {
    Model(ModelNode),
    Enum(EnumNode),
    Nothing,
}

/// The mathematical value of a [`CurrentElement`].
pub enum CurrentElementView {
    Model(ModelNodeView),
    Enum(EnumNodeView),
    Nothing,
}

impl DeepView for CurrentElement {
    type V = CurrentElementView;

    open spec fn deep_view(&self) -> CurrentElementView {
        match self {
            CurrentElement::Model(m) => CurrentElementView::Model(m.deep_view()),
            CurrentElement::Enum(e) => CurrentElementView::Enum(e.deep_view()),
            CurrentElement::Nothing => CurrentElementView::Nothing,
        }
    }
}

/// The state of the parser between two tokens.
pub struct ParserState {
    pub file: String,
    pub namespace: Option<String>,
    pub current_element: CurrentElement,
    pub current_section: Option<String>,
    pub current_kind: FieldKind,
    pub last_field_idx: Option<usize>,
    pub models: Vec<ModelNode>,
    pub enums: Vec<EnumNode>,
    pub interfaces: Vec<ModelNode>,
    pub views: Vec<ModelNode>,
    pub attribute_registry: Vec<AttributeRegistryEntry>,
    pub current_attr_def: Option<AttrDef>,
    pub source_directives_done: bool,
    pub imports: Vec<String>,
}

/// The mathematical value of a [`ParserState`].
pub struct ParserStateView {
    pub file: Seq<char>,
    pub namespace: Option<Seq<char>>,
    pub current_element: CurrentElementView,
    pub current_section: Option<Seq<char>>,
    pub current_kind: FieldKind,
    pub last_field_idx: Option<usize>,
    pub models: Seq<ModelNodeView>,
    pub enums: Seq<EnumNodeView>,
    pub interfaces: Seq<ModelNodeView>,
    pub views: Seq<ModelNodeView>,
    pub attribute_registry: Seq<AttributeRegistryEntryView>,
    pub current_attr_def: Option<AttrDefView>,
    pub source_directives_done: bool,
    pub imports: Seq<Seq<char>>,
}

impl DeepView for ParserState {
    type V = ParserStateView;

    open spec fn deep_view(&self) -> ParserStateView {
        ParserStateView {
            file: self.file@,
            namespace: self.namespace.deep_view(),
            current_element: self.current_element.deep_view(),
            current_section: self.current_section.deep_view(),
            current_kind: self.current_kind,
            last_field_idx: self.last_field_idx,
            models: self.models.deep_view(),
            enums: self.enums.deep_view(),
            interfaces: self.interfaces.deep_view(),
            views: self.views.deep_view(),
            attribute_registry: self.attribute_registry.deep_view(),
            current_attr_def: self.current_attr_def.deep_view(),
            source_directives_done: self.source_directives_done,
            imports: self.imports.deep_view(),
        }
    }
}

/// The state before the first token of `file`.
pub open spec fn initial(file: Seq<char>) -> ParserStateView {
    ParserStateView {
        file: file,
        namespace: None,
        current_element: CurrentElementView::Nothing,
        current_section: None,
        current_kind: FieldKind::Stored,
        last_field_idx: None,
        models: Seq::empty(),
        enums: Seq::empty(),
        interfaces: Seq::empty(),
        views: Seq::empty(),
        attribute_registry: Seq::empty(),
        current_attr_def: None,
        source_directives_done: false,
        imports: Seq::empty(),
    }
}

/// The position of the pair with the name `key`, or the number of pairs.
pub open spec fn pair_index(fields: Seq<(Seq<char>, Seq<char>)>, key: Seq<char>, from: int) -> int
    decreases fields.len() - from,
{
    if from < 0 || from >= fields.len() {
        fields.len() as int
    } else if fields[from].0 == key {
        from
    } else {
        pair_index(fields, key, from + 1)
    }
}

/// What the pairs hold under `key`.
pub open spec fn pair_value(fields: Seq<(Seq<char>, Seq<char>)>, key: Seq<char>) -> Option<
    Seq<char>,
> {
    let i = pair_index(fields, key, 0);
    if 0 <= i < fields.len() {
        Some(fields[i].1)
    } else {
        None
    }
}

/// The pairs with `key` set to `value`.
pub open spec fn with_pair(
    fields: Seq<(Seq<char>, Seq<char>)>,
    key: Seq<char>,
    value: Seq<char>,
) -> Seq<(Seq<char>, Seq<char>)> {
    let i = pair_index(fields, key, 0);
    if 0 <= i < fields.len() {
        fields.update(i, (key, value))
    } else {
        fields.push((key, value))
    }
}

fn find_pair(fields: &Vec<(String, String)>, key: &str) -> (r: usize)
    ensures
        r == pair_index(fields.deep_view(), key@, 0),
        r <= fields@.len(),
{
    let mut i: usize = 0;
    while i < fields.len()
        invariant
            i <= fields@.len(),
            pair_index(fields.deep_view(), key@, i as int) == pair_index(
                fields.deep_view(),
                key@,
                0,
            ),
        decreases fields.len() - i,
    {
        proof {
            assert(fields.deep_view()[i as int].0 == fields@[i as int].0@);
        }
        if str_eq(fields[i].0.as_str(), key) {
            return i;
        }
        i += 1;
    }
    i
}

fn get_pair(fields: &Vec<(String, String)>, key: &str) -> (r: Option<Vec<char>>)
    ensures
        crate::text::opt_text(r) == pair_value(fields.deep_view(), key@),
{
    let i = find_pair(fields, key);
    if i < fields.len() {
        proof {
            assert(fields.deep_view()[i as int].1 == fields@[i as int].1@);
        }
        Some(to_chars(fields[i].1.as_str()))
    } else {
        None
    }
}

fn set_pair(fields: &mut Vec<(String, String)>, key: String, value: String)
    ensures
        final(fields).deep_view() == with_pair(old(fields).deep_view(), key@, value@),
{
    let ghost before = fields.deep_view();
    let i = find_pair(fields, key.as_str());
    if i < fields.len() {
        fields.set(i, (key, value));
        proof {
            assert(fields.deep_view() =~= before.update(i as int, (key@, value@)));
        }
    } else {
        fields.push((key, value));
        proof {
            assert(fields.deep_view() =~= before.push((key@, value@)));
        }
    }
}

/// The names among `names` that are targets of an attribute: `field` and `model`.
pub open spec fn only_targets(names: Seq<Seq<char>>) -> Seq<Seq<char>>
    decreases names.len(),
{
    if names.len() == 0 {
        Seq::empty()
    } else {
        let rest = only_targets(names.drop_last());
        if names.last() == "field"@ || names.last() == "model"@ {
            rest.push(names.last())
        } else {
            rest
        }
    }
}

/// A text without the brackets at its ends.
pub open spec fn unbracketed(s: Seq<char>) -> Seq<char> {
    trim_end_of(trim_start_of(s, seq!['[']), seq![']'])
}

fn strip_brackets(v: &Vec<char>) -> (r: Vec<char>)
    ensures
        r@ == unbracketed(v@),
{
    proof {
        reveal_strlit("[");
        reveal_strlit("]");
        assert("["@ =~= seq!['[']);
        assert("]"@ =~= seq![']']);
    }
    strip_chars(&strip_chars(v, "[", true, false), "]", false, true)
}

/// The targets of an attribute definition: those named in its `target`
/// line; `field` where it names none.
pub open spec fn targets_of(raw: Option<Seq<char>>) -> Seq<Seq<char>> {
    let t = only_targets(trimmed_nonempty(split(unbracketed(text_or_empty(raw)), ',')));
    if t.len() == 0 {
        seq!["field"@]
    } else {
        t
    }
}

fn read_targets(raw: &Option<Vec<char>>) -> (r: Vec<String>)
    ensures
        r.deep_view() == targets_of(crate::text::opt_text(*raw)),
{
    let text = match raw {
        Some(v) => strip_brackets(v),
        None => strip_brackets(&Vec::new()),
    };
    let names = split_trimmed(&text, ',', false);
    let mut out: Vec<String> = Vec::new();
    let ghost all = names.deep_view();
    let mut i: usize = 0;
    proof {
        assert(all.take(0) =~= Seq::empty());
        assert(out.deep_view() =~= Seq::empty());
    }
    while i < names.len()
        invariant
            i <= names@.len(),
            all == names.deep_view(),
            out.deep_view() == only_targets(all.take(i as int)),
        decreases names.len() - i,
    {
        let ghost before = out.deep_view();
        proof {
            assert(all.take(i + 1).drop_last() =~= all.take(i as int));
            assert(all.take(i + 1).last() == names@[i as int]@);
        }
        if str_eq(names[i].as_str(), "field") || str_eq(names[i].as_str(), "model") {
            out.push(names[i].clone());
            proof {
                assert(out.deep_view() =~= before.push(names@[i as int]@));
            }
        }
        i += 1;
    }
    proof {
        assert(all.take(names@.len() as int) =~= all);
    }
    if out.len() == 0 {
        out.push(String::from_str("field"));
        proof {
            assert(out.deep_view() =~= seq!["field"@]);
        }
    }
    out
}

/// The separator of a range: two points where the text holds them, else a comma.
pub open spec fn range_separator(cleaned: Seq<char>) -> Seq<char> {
    if contains_sub(cleaned, ".."@) {
        ".."@
    } else {
        ","@
    }
}

/// The range that a `range` line declares, `[a, b]` or `a..b`: two numbers
/// with one separator between them. Any other text declares none.
pub open spec fn range_of(raw: Seq<char>) -> Option<(Seq<char>, Seq<char>)> {
    let cleaned = unbracketed(raw);
    let sep = range_separator(cleaned);
    let i = find_sub_from(cleaned, sep, 0);
    if 0 <= i < cleaned.len() && i + sep.len() <= cleaned.len() {
        let a = trim(cleaned.subrange(0, i));
        let rest = cleaned.subrange(i + sep.len(), cleaned.len() as int);
        if !contains_sub(rest, sep) && is_number(a) && is_number(trim(rest)) {
            Some((a, trim(rest)))
        } else {
            None
        }
    } else {
        None
    }
}

fn read_range(raw: &Vec<char>) -> (r: Option<(NumberLit, NumberLit)>)
    ensures
        r.deep_view() == range_of(raw@),
{
    let cleaned = strip_brackets(raw);
    let n = cleaned.len();
    let sep = if has_sub(&cleaned, "..") {
        to_chars("..")
    } else {
        to_chars(",")
    };
    let i = find_sub(&cleaned, &sep, 0);
    if i < n {
        let a = trim_range(&cleaned, 0, i);
        let rest = crate::text::slice(&cleaned, i + sep.len(), n);
        let more = find_sub(&rest, &sep, 0) < rest.len();
        let b = trim_chars(&rest);
        if !more && is_number_text(&a) && is_number_text(&b) {
            Some((NumberLit { text: from_chars(&a) }, NumberLit { text: from_chars(&b) }))
        } else {
            None
        }
    } else {
        None
    }
}

/// The default value of an attribute definition: a boolean, a number, or a string.
pub open spec fn default_arg(v: Seq<char>) -> AttrArgView {
    if v == "true"@ {
        AttrArgView::Bool(true)
    } else if v == "false"@ {
        AttrArgView::Bool(false)
    } else if is_number(v) {
        AttrArgView::Number(v)
    } else {
        AttrArgView::String(v)
    }
}

fn read_default_arg(v: &Vec<char>) -> (r: AttrArgValue)
    ensures
        r.deep_view() == default_arg(v@),
{
    if chars_eq(v, "true") {
        AttrArgValue::Bool(true)
    } else if chars_eq(v, "false") {
        AttrArgValue::Bool(false)
    } else if is_number_text(v) {
        AttrArgValue::Number(NumberLit { text: from_chars(v) })
    } else {
        AttrArgValue::String(from_chars(v))
    }
}

/// The registry entry that an attribute definition makes. Its type is
/// `boolean` where no line sets it; it is required where the `required` line
/// says `true`.
pub open spec fn registry_entry(d: AttrDefView) -> AttributeRegistryEntryView {
    AttributeRegistryEntryView {
        name: d.name,
        description: d.description,
        target: targets_of(pair_value(d.fields, "target"@)),
        attr_type: match pair_value(d.fields, "type"@) {
            Some(t) => t,
            None => "boolean"@,
        },
        range: match pair_value(d.fields, "range"@) {
            Some(r) => range_of(r),
            None => None,
        },
        required: pair_value(d.fields, "required"@) == Some("true"@),
        default_value: match pair_value(d.fields, "default"@) {
            Some(v) => Some(default_arg(v)),
            None => None,
        },
    }
}

/// Builds the registry entry of an attribute definition.
pub fn make_registry_entry(d: AttrDef) -> (r: AttributeRegistryEntry)
    ensures
        r.deep_view() == registry_entry(d.deep_view()),
{
    let target = read_targets(&get_pair(&d.fields, "target"));
    let attr_type = match get_pair(&d.fields, "type") {
        Some(t) => from_chars(&t),
        None => String::from_str("boolean"),
    };
    let range = match get_pair(&d.fields, "range") {
        Some(r) => read_range(&r),
        None => None,
    };
    let required = match get_pair(&d.fields, "required") {
        Some(v) => chars_eq(&v, "true"),
        None => false,
    };
    let default_value = match get_pair(&d.fields, "default") {
        Some(v) => Some(read_default_arg(&v)),
        None => None,
    };
    AttributeRegistryEntry {
        name: d.name,
        description: d.description,
        target,
        attr_type,
        range,
        required,
        default_value,
    }
}

/// The state with the attribute definition that is open, if any, filed in
/// the registry.
pub open spec fn finalize_attr(s: ParserStateView) -> ParserStateView {
    match s.current_attr_def {
        Some(d) => ParserStateView {
            attribute_registry: s.attribute_registry.push(registry_entry(d)),
            current_attr_def: None,
            ..s
        },
        None => s,
    }
}

fn finalize_attr_def(state: &mut ParserState)
    ensures
        final(state).deep_view() == finalize_attr(old(state).deep_view()),
{
    match state.current_attr_def.take() {
        Some(d) => {
            let ghost before = state.attribute_registry.deep_view();
            let entry = make_registry_entry(d);
            state.attribute_registry.push(entry);
            proof {
                assert(state.attribute_registry.deep_view() =~= before.push(entry.deep_view()));
            }
        },
        None => {},
    }
}

/// The state with the open element filed where it belongs: an enum with the
/// enums, an interface with the interfaces, a view with the views, a model
/// with the models. No element is open afterwards.
pub open spec fn finalized(s: ParserStateView) -> ParserStateView {
    let t = finalize_attr(s);
    let filed = match t.current_element {
        CurrentElementView::Enum(e) => ParserStateView { enums: t.enums.push(e), ..t },
        CurrentElementView::Model(m) => if m.model_type == ModelType::Interface {
            ParserStateView { interfaces: t.interfaces.push(m), ..t }
        } else if m.model_type == ModelType::View {
            ParserStateView { views: t.views.push(m), ..t }
        } else {
            ParserStateView { models: t.models.push(m), ..t }
        },
        CurrentElementView::Nothing => t,
    };
    ParserStateView {
        current_element: CurrentElementView::Nothing,
        current_section: None,
        current_kind: FieldKind::Stored,
        last_field_idx: None,
        ..filed
    }
}

fn push_model(list: &mut Vec<ModelNode>, m: ModelNode)
    ensures
        final(list).deep_view() == old(list).deep_view().push(m.deep_view()),
{
    let ghost before = list.deep_view();
    list.push(m);
    proof {
        assert(list.deep_view() =~= before.push(m.deep_view()));
    }
}

fn finalize_element(state: &mut ParserState)
    ensures
        final(state).deep_view() == finalized(old(state).deep_view()),
{
    finalize_attr_def(state);
    let mut element = CurrentElement::Nothing;
    core::mem::swap(&mut state.current_element, &mut element);
    match element {
        CurrentElement::Enum(e) => {
            let ghost before = state.enums.deep_view();
            state.enums.push(e);
            proof {
                assert(state.enums.deep_view() =~= before.push(e.deep_view()));
            }
        },
        CurrentElement::Model(m) => match m.model_type {
            ModelType::Interface => {
                push_model(&mut state.interfaces, m);
            },
            ModelType::View => {
                push_model(&mut state.views, m);
            },
            _ => {
                push_model(&mut state.models, m);
            },
        },
        CurrentElement::Nothing => {},
    }
    state.current_section = None;
    state.current_kind = FieldKind::Stored;
    state.last_field_idx = None;
}

/// Line `line` of `file`, column 1.
pub open spec fn location(file: Seq<char>, line: usize) -> SourceLocationView {
    SourceLocationView { file: file, line: line, col: 1 }
}

/// The model or interface that the heading token `t` starts.
pub open spec fn new_model(t: TokenView, file: Seq<char>) -> ModelNodeView {
    ModelNodeView {
        name: text_or_empty(t.data.name),
        label: t.data.label,
        model_type: if t.token_type == TokenType::Interface {
            ModelType::Interface
        } else {
            ModelType::Model
        },
        source: file,
        line: t.line,
        inherits: t.data.inherits,
        description: None,
        attributes: field_attrs(t.data.attributes),
        fields: Seq::empty(),
        sections: Sections::empty_view(),
        materialized: None,
        source_def: None,
        refresh: None,
        loc: location(file, t.line),
    }
}

/// The view that the heading token `t` starts, with the parents that the
/// heading names.
pub open spec fn new_view(t: TokenView, file: Seq<char>) -> ModelNodeView {
    ModelNodeView {
        name: text_or_empty(t.data.name),
        label: t.data.label,
        model_type: ModelType::View,
        source: file,
        line: t.line,
        inherits: t.data.inherits,
        description: None,
        attributes: Seq::empty(),
        fields: Seq::empty(),
        sections: Sections::empty_view(),
        materialized: Some(t.data.materialized == Some(true)),
        source_def: None,
        refresh: None,
        loc: location(file, t.line),
    }
}

/// The enum that the heading token `t` starts.
pub open spec fn new_enum(t: TokenView, file: Seq<char>) -> EnumNodeView {
    EnumNodeView {
        name: text_or_empty(t.data.name),
        label: t.data.label,
        enum_type: ModelType::Enum,
        source: file,
        line: t.line,
        inherits: t.data.inherits,
        description: t.data.description,
        values: Seq::empty(),
        loc: location(file, t.line),
    }
}

/// The state after a heading that starts the element `e`.
pub open spec fn started(s: ParserStateView, e: CurrentElementView) -> ParserStateView {
    ParserStateView {
        current_element: e,
        current_section: None,
        current_kind: FieldKind::Stored,
        last_field_idx: None,
        ..finalized(s)
    }
}

fn make_location(file: &String, line: usize) -> (r: SourceLocation)
    ensures
        r.deep_view() == location(file@, line),
{
    SourceLocation { file: file.clone(), line, col: 1 }
}

fn handle_model_start(token: &Token, state: &mut ParserState)
    ensures
        final(state).deep_view() == (ParserStateView {
            source_directives_done: false,
            ..started(
                old(state).deep_view(),
                CurrentElementView::Model(new_model(token.deep_view(), old(state).file@)),
            )
        }),
{
    finalize_element(state);
    let model_type = match token.token_type {
        TokenType::Interface => ModelType::Interface,
        _ => ModelType::Model,
    };
    let fields: Vec<crate::types::FieldNode> = Vec::new();
    proof {
        assert(fields.deep_view() =~= Seq::empty());
    }
    let model = ModelNode {
        name: token_name(&token.data),
        label: clone_opt_string(&token.data.label),
        model_type,
        source: state.file.clone(),
        line: token.line,
        inherits: clone_vec_string(&token.data.inherits),
        description: None,
        attributes: parse_raw_attributes(&token.data.attributes),
        fields,
        sections: Sections::default(),
        materialized: None,
        source_def: None,
        refresh: None,
        loc: make_location(&state.file, token.line),
    };
    state.current_element = CurrentElement::Model(model);
    state.current_section = None;
    state.current_kind = FieldKind::Stored;
    state.last_field_idx = None;
    state.source_directives_done = false;
}

fn handle_enum_start(token: &Token, state: &mut ParserState)
    ensures
        final(state).deep_view() == started(
            old(state).deep_view(),
            CurrentElementView::Enum(new_enum(token.deep_view(), old(state).file@)),
        ),
{
    finalize_element(state);
    let values: Vec<EnumValue> = Vec::new();
    proof {
        assert(values.deep_view() =~= Seq::empty());
    }
    let node = EnumNode {
        name: token_name(&token.data),
        label: clone_opt_string(&token.data.label),
        enum_type: ModelType::Enum,
        source: state.file.clone(),
        line: token.line,
        inherits: clone_vec_string(&token.data.inherits),
        description: clone_opt_string(&token.data.description),
        values,
        loc: make_location(&state.file, token.line),
    };
    state.current_element = CurrentElement::Enum(node);
    state.current_section = None;
    state.current_kind = FieldKind::Stored;
    state.last_field_idx = None;
}

fn handle_view_start(token: &Token, state: &mut ParserState)
    ensures
        final(state).deep_view() == (ParserStateView {
            source_directives_done: false,
            ..started(
                old(state).deep_view(),
                CurrentElementView::Model(new_view(token.deep_view(), old(state).file@)),
            )
        }),
{
    finalize_element(state);
    let materialized = match token.data.materialized {
        Some(b) => b,
        None => false,
    };
    let fields: Vec<crate::types::FieldNode> = Vec::new();
    let inherits = clone_vec_string(&token.data.inherits);
    let attributes: Vec<crate::types::FieldAttribute> = Vec::new();
    proof {
        assert(fields.deep_view() =~= Seq::empty());
        assert(attributes.deep_view() =~= Seq::empty());
    }
    let view = ModelNode {
        name: token_name(&token.data),
        label: clone_opt_string(&token.data.label),
        model_type: ModelType::View,
        source: state.file.clone(),
        line: token.line,
        inherits,
        description: None,
        attributes,
        fields,
        sections: Sections::default(),
        materialized: Some(materialized),
        source_def: None,
        refresh: None,
        loc: make_location(&state.file, token.line),
    };
    state.current_element = CurrentElement::Model(view);
    state.current_section = None;
    state.current_kind = FieldKind::Stored;
    state.last_field_idx = None;
    state.source_directives_done = false;
}

/// The state after the heading of an attribute definition: the name is that
/// of the heading without the `@` signs before it.
pub open spec fn start_attr_def(s: ParserStateView, t: TokenView) -> ParserStateView {
    ParserStateView {
        current_attr_def: Some(
            AttrDefView {
                name: trim_start_of(text_or_empty(t.data.name), seq!['@']),
                description: t.data.description,
                fields: Seq::empty(),
            },
        ),
        ..finalized(s)
    }
}

fn handle_attribute_def_start(token: &Token, state: &mut ParserState)
    ensures
        final(state).deep_view() == start_attr_def(old(state).deep_view(), token.deep_view()),
{
    finalize_element(state);
    proof {
        reveal_strlit("@");
        assert("@"@ =~= seq!['@']);
    }
    let name = strip_chars(&to_chars(token_name(&token.data).as_str()), "@", true, false);
    let fields: Vec<(String, String)> = Vec::new();
    proof {
        assert(fields.deep_view() =~= Seq::empty());
    }
    state.current_attr_def = Some(
        AttrDef {
            name: from_chars(&name),
            description: clone_opt_string(&token.data.description),
            fields,
        },
    );
}

/// The state after a namespace token: the namespace is set while no element is open.
pub open spec fn on_namespace(s: ParserStateView, t: TokenView) -> ParserStateView {
    if s.current_element is Nothing {
        ParserStateView { namespace: t.data.name, ..s }
    } else {
        s
    }
}

fn handle_namespace(token: &Token, state: &mut ParserState)
    ensures
        final(state).deep_view() == on_namespace(old(state).deep_view(), token.deep_view()),
{
    match state.current_element {
        CurrentElement::Nothing => {
            state.namespace = clone_opt_string(&token.data.name);
        },
        _ => {},
    }
}

/// The kind that a kind-changing heading sets, by the start of its name in
/// lower case; `current` where the name starts otherwise.
pub open spec fn section_kind(name: Seq<char>, current: FieldKind) -> FieldKind {
    let lower = lowercase(name);
    if starts_with(lower, "lookup"@) {
        FieldKind::Lookup
    } else if starts_with(lower, "rollup"@) {
        FieldKind::Rollup
    } else if starts_with(lower, "computed"@) {
        FieldKind::Computed
    } else {
        current
    }
}

/// The state after a section heading. A kind-changing heading sets the kind
/// of the fields that follow and closes the section; it does nothing while
/// no element is open. Any other heading opens its section; the `Source`
/// section of a view takes the code block attached to the heading as its
/// query.
pub open spec fn on_section(s: ParserStateView, t: TokenView) -> ParserStateView {
    let name = text_or_empty(t.data.name);
    if t.data.kind_section {
        if s.current_element is Nothing {
            s
        } else {
            ParserStateView {
                current_kind: section_kind(name, s.current_kind),
                current_section: None,
                last_field_idx: None,
                ..s
            }
        }
    } else {
        let opened = ParserStateView { current_section: Some(name), last_field_idx: None, ..s };
        match s.current_element {
            CurrentElementView::Model(m) => if name == "Source"@ && m.model_type
                == ModelType::View {
                ParserStateView {
                    source_directives_done: false,
                    current_element: match t.data.code_block {
                        Some(cb) => CurrentElementView::Model(
                            ModelNodeView {
                                source_def: Some(
                                    ViewSourceDefView {
                                        raw_sql: Some(cb.content),
                                        language_hint: cb.language,
                                        ..source_of(m)
                                    },
                                ),
                                ..m
                            },
                        ),
                        None => s.current_element,
                    },
                    ..opened
                }
            } else {
                opened
            },
            _ => opened,
        }
    }
}

fn handle_section(token: &Token, state: &mut ParserState)
    ensures
        final(state).deep_view() == on_section(old(state).deep_view(), token.deep_view()),
{
    let name = token_name(&token.data);
    if token.data.kind_section {
        match state.current_element {
            CurrentElement::Nothing => {
                return ;
            },
            _ => {},
        }
        let lower = to_chars(to_lowercase(name.as_str()).as_str());
        if has_prefix(&lower, "lookup") {
            state.current_kind = FieldKind::Lookup;
        } else if has_prefix(&lower, "rollup") {
            state.current_kind = FieldKind::Rollup;
        } else if has_prefix(&lower, "computed") {
            state.current_kind = FieldKind::Computed;
        }
        state.current_section = None;
        state.last_field_idx = None;
        return ;
    }
    let is_source = str_eq(name.as_str(), "Source");
    state.current_section = Some(name);
    state.last_field_idx = None;
    if is_source {
        match &mut state.current_element {
            CurrentElement::Model(model) => {
                match model.model_type {
                    ModelType::View => {
                        state.source_directives_done = false;
                        match &token.data.code_block {
                            Some(cb) => {
                                let mut def = match model.source_def.take() {
                                    Some(d) => d,
                                    None => new_source(),
                                };
                                def.raw_sql = Some(cb.content.clone());
                                def.language_hint = clone_opt_string(&cb.language);
                                model.source_def = Some(def);
                            },
                            None => {},
                        }
                    },
                    _ => {},
                }
            },
            _ => {},
        }
    }
}

/// The enum value that a field line makes, given what the quoted-text
/// pattern found in its type. A type that is a quoted text is the
/// description; any other type but `enum` is the type of the value; a
/// default value is the value.
pub open spec fn enum_value_of(data: TokenDataView, caps: Option<Seq<Option<Seq<char>>>>) -> EnumValueView {
    let typed = data.field_type is Some && data.field_type != Some("enum"@);
    let quoted = data.field_type is Some && caps is Some;
    let description = if typed && quoted {
        Some(text_or_empty(group_text(caps->0, 1)))
    } else {
        data.description
    };
    EnumValueView {
        name: text_or_empty(data.name),
        description: if description is None && quoted {
            Some(text_or_empty(group_text(caps->0, 1)))
        } else {
            description
        },
        value_type: if typed && !quoted {
            data.field_type
        } else {
            None
        },
        value: match data.default_value {
            Some(v) => Some(JsonView::String(v)),
            None => None,
        },
    }
}

/// Builds the enum value of a field line from what the quoted-text pattern
/// found in its type.
pub fn make_enum_value_of(data: &TokenData, caps: &Option<Vec<Option<Vec<char>>>>) -> (r:
    EnumValue)
    ensures
        r.deep_view() == enum_value_of(data.deep_view(), found(*caps)),
{
    let typed = match &data.field_type {
        Some(t) => !str_eq(t.as_str(), "enum"),
        None => false,
    };
    let quoted = data.field_type.is_some() && caps.is_some();
    let mut description = clone_opt_string(&data.description);
    let mut value_type: Option<String> = None;
    if typed {
        match caps {
            Some(g) => {
                description = Some(group_or_empty(g, 1));
            },
            None => {
                value_type = clone_opt_string(&data.field_type);
            },
        }
    }
    if description.is_none() && quoted {
        match caps {
            Some(g) => {
                description = Some(group_or_empty(g, 1));
            },
            None => {},
        }
    }
    let value = match &data.default_value {
        Some(v) => Some(JsonValue::String(v.clone())),
        None => None,
    };
    EnumValue { name: token_name(data), description, value_type, value }
}

/// The pairs of an attribute definition with what the line `raw` sets: the
/// text behind the first colon, under `name`. A line without a colon sets nothing.
pub open spec fn with_definition_line(
    fields: Seq<(Seq<char>, Seq<char>)>,
    name: Seq<char>,
    raw: Seq<char>,
) -> Seq<(Seq<char>, Seq<char>)> {
    let text = item_text(raw);
    let colon = find_from(text, ':', 0);
    if 0 <= colon < text.len() {
        with_pair(fields, name, trim(text.subrange(colon + 1, text.len() as int)))
    } else {
        fields
    }
}

/// The state after a field token. While an attribute definition is open the
/// line belongs to it. In an enum the line is a value. In a model a
/// directive goes to the sections, a line inside a section is an entry of
/// that section, and any other line is a field.
pub open spec fn on_field(s: ParserStateView, t: TokenView) -> ParserStateView {
    match s.current_attr_def {
        Some(d) => ParserStateView {
            current_attr_def: Some(
                AttrDefView {
                    fields: with_definition_line(d.fields, text_or_empty(t.data.name), t.raw),
                    ..d
                },
            ),
            ..s
        },
        None => match s.current_element {
            CurrentElementView::Nothing => s,
            CurrentElementView::Enum(e) => ParserStateView {
                current_element: CurrentElementView::Enum(
                    EnumNodeView {
                        values: e.values.push(
                            enum_value_of(t.data, quote_caps(t.data.field_type)),
                        ),
                        ..e
                    },
                ),
                ..s
            },
            CurrentElementView::Model(m) => if t.data.is_directive {
                ParserStateView {
                    current_element: CurrentElementView::Model(
                        with_directive(m, t.data, t.raw, t.line, s.file),
                    ),
                    ..s
                }
            } else {
                match s.current_section {
                    Some(section) => {
                        let r = section_item(
                            m,
                            t.data,
                            t.raw,
                            t.line,
                            s.file,
                            section,
                            s.current_kind,
                            s.source_directives_done,
                            s.last_field_idx,
                        );
                        ParserStateView {
                            current_element: CurrentElementView::Model(r.0),
                            source_directives_done: r.1,
                            last_field_idx: r.2,
                            ..s
                        }
                    },
                    None => ParserStateView {
                        current_element: CurrentElementView::Model(
                            ModelNodeView {
                                fields: m.fields.push(
                                    field_node(t.data, t.line, s.file, s.current_kind),
                                ),
                                ..m
                            },
                        ),
                        last_field_idx: Some(m.fields.len() as usize),
                        ..s
                    },
                }
            },
        },
    }
}

fn definition_line(d: &mut AttrDef, token: &Token)
    ensures
        final(d).deep_view() == (AttrDefView {
            fields: with_definition_line(
                old(d).deep_view().fields,
                text_or_empty(token.deep_view().data.name),
                token.raw@,
            ),
            ..old(d).deep_view()
        }),
{
    let text = read_item_text(token.raw.as_str());
    let n = text.len();
    let colon = find_char(&text, ':', 0);
    if colon < n {
        let value = from_chars(&trim_range(&text, colon + 1, n));
        set_pair(&mut d.fields, token_name(&token.data), value);
    }
}

fn field_in_enum(e: &mut EnumNode, token: &Token)
    ensures
        final(e).deep_view() == (EnumNodeView {
            values: old(e).deep_view().values.push(
                enum_value_of(
                    token.deep_view().data,
                    quote_caps(token.deep_view().data.field_type),
                ),
            ),
            ..old(e).deep_view()
        }),
{
    let caps = match &token.data.field_type {
        Some(t) => crate::pattern::captures(crate::grammar::RE_QUOTE_STR, &to_chars(t.as_str())),
        None => None,
    };
    let ev = make_enum_value_of(&token.data, &caps);
    let ghost before = e.values.deep_view();
    e.values.push(ev);
    proof {
        assert(e.values.deep_view() =~= before.push(ev.deep_view()));
    }
}

fn plain_field(model: &mut ModelNode, token: &Token, file: &str, kind: FieldKind) -> (n: usize)
    ensures
        final(model).deep_view() == (ModelNodeView {
            fields: old(model).deep_view().fields.push(
                field_node(token.deep_view().data, token.line, file@, kind),
            ),
            ..old(model).deep_view()
        }),
        n == old(model).fields@.len(),
{
    let n = model.fields.len();
    let f = build_field_node(&token.data, token.line, file, kind);
    let ghost before = model.fields.deep_view();
    model.fields.push(f);
    proof {
        assert(model.fields.deep_view() =~= before.push(field_view(&f)));
    }
    n
}

fn handle_field(token: &Token, state: &mut ParserState)
    ensures
        final(state).deep_view() == on_field(old(state).deep_view(), token.deep_view()),
{
    match &mut state.current_attr_def {
        Some(d) => {
            definition_line(d, token);
            return ;
        },
        None => {},
    }
    match &mut state.current_element {
        CurrentElement::Nothing => {},
        CurrentElement::Enum(e) => {
            field_in_enum(e, token);
        },
        CurrentElement::Model(model) => {
            if token.data.is_directive {
                handle_directive(
                    &token.data,
                    model,
                    token.raw.as_str(),
                    token.line,
                    state.file.as_str(),
                );
                return ;
            }
            match &state.current_section {
                Some(section) => {
                    handle_section_item(
                        &token.data,
                        model,
                        token.raw.as_str(),
                        token.line,
                        state.file.as_str(),
                        section.as_str(),
                        state.current_kind,
                        &mut state.source_directives_done,
                        &mut state.last_field_idx,
                    );
                },
                None => {
                    let n = plain_field(model, token, state.file.as_str(), state.current_kind);
                    state.last_field_idx = Some(n);
                },
            }
        },
    }
}

/// The state after a nested item: it belongs to the enum or to the model
/// that is open.
pub open spec fn on_nested(s: ParserStateView, t: TokenView) -> ParserStateView {
    match s.current_element {
        CurrentElementView::Nothing => s,
        CurrentElementView::Enum(e) => ParserStateView {
            current_element: CurrentElementView::Enum(nested_in_enum(e, t.data.key, t.data.value)),
            ..s
        },
        CurrentElementView::Model(m) => ParserStateView {
            current_element: CurrentElementView::Model(
                nested_in_model(
                    m,
                    t.data.key,
                    t.data.value,
                    t.line,
                    s.file,
                    s.current_section,
                    s.current_kind,
                    s.last_field_idx,
                ),
            ),
            ..s
        },
    }
}

fn handle_nested_item(token: &Token, state: &mut ParserState)
    ensures
        final(state).deep_view() == on_nested(old(state).deep_view(), token.deep_view()),
{
    match &mut state.current_element {
        CurrentElement::Nothing => {},
        CurrentElement::Enum(e) => {
            nested_item_in_enum(e, &token.data.key, &token.data.value);
        },
        CurrentElement::Model(model) => {
            nested_item_in_model(
                model,
                &token.data.key,
                &token.data.value,
                token.line,
                state.file.as_str(),
                &state.current_section,
                state.current_kind,
                state.last_field_idx,
            );
        },
    }
}

/// The model with the quoted `text` as a further line of description: of
/// the last field where there is one, else of the model.
pub open spec fn quote_in_model(m: ModelNodeView, last: Option<usize>, text: Seq<char>) -> ModelNodeView {
    if last is Some && (last->0 as int) < m.fields.len() {
        ModelNodeView {
            fields: m.fields.update(
                last->0 as int,
                FieldNodeView {
                    description: Some(quoted_more(m.fields[last->0 as int].description, text)),
                    ..m.fields[last->0 as int]
                },
            ),
            ..m
        }
    } else {
        ModelNodeView { description: Some(quoted_more(m.description, text)), ..m }
    }
}

/// The state after a block quote: a further line of the description of what
/// is open.
pub open spec fn on_blockquote(s: ParserStateView, t: TokenView) -> ParserStateView {
    let text = text_or_empty(t.data.name);
    match s.current_attr_def {
        Some(d) => ParserStateView {
            current_attr_def: Some(AttrDefView { description: Some(text), ..d }),
            ..s
        },
        None => match s.current_element {
            CurrentElementView::Nothing => s,
            CurrentElementView::Enum(e) => ParserStateView {
                current_element: CurrentElementView::Enum(
                    EnumNodeView { description: Some(quoted_more(e.description, text)), ..e },
                ),
                ..s
            },
            CurrentElementView::Model(m) => ParserStateView {
                current_element: CurrentElementView::Model(
                    quote_in_model(m, s.last_field_idx, text),
                ),
                ..s
            },
        },
    }
}

fn more_description(prev: &Option<String>, text: &String) -> (r: String)
    ensures
        r@ == quoted_more(prev.deep_view(), text@),
{
    let mut joined: Vec<char> = Vec::new();
    match prev {
        Some(p) => {
            joined = to_chars(p.as_str());
            joined.push('\n');
        },
        None => {},
    }
    push_all(&mut joined, &to_chars(text.as_str()));
    proof {
        assert(joined@ =~= quoted_more(prev.deep_view(), text@));
    }
    from_chars(&joined)
}

fn blockquote_in_model(model: &mut ModelNode, last: Option<usize>, text: &String)
    ensures
        final(model).deep_view() == quote_in_model(old(model).deep_view(), last, text@),
{
    match last {
        Some(idx) => {
            if idx < model.fields.len() {
                let ghost before = model.fields.deep_view();
                let d = more_description(&model.fields[idx].description, text);
                assert(d@ == quoted_more(before[idx as int].description, text@));
                model.fields[idx].description = Some(d);
                proof {
                    assert(model.fields.deep_view() =~= before.update(
                        idx as int,
                        FieldNodeView { description: Some(d@), ..before[idx as int] },
                    ));
                }
                return ;
            }
        },
        None => {},
    }
    model.description = Some(more_description(&model.description, text));
}

fn handle_blockquote(token: &Token, state: &mut ParserState)
    ensures
        final(state).deep_view() == on_blockquote(old(state).deep_view(), token.deep_view()),
{
    let text = token_name(&token.data);
    match &mut state.current_attr_def {
        Some(d) => {
            d.description = Some(text);
            return ;
        },
        None => {},
    }
    match &mut state.current_element {
        CurrentElement::Nothing => {},
        CurrentElement::Enum(e) => {
            e.description = Some(more_description(&e.description, &text));
        },
        CurrentElement::Model(model) => {
            blockquote_in_model(model, state.last_field_idx, &text);
        },
    }
}

/// The state after a text token: an import is noted; a text below the
/// heading of a model that has no fields and no description yet is its
/// description.
pub open spec fn on_text(s: ParserStateView, t: TokenView) -> ParserStateView {
    if t.data.is_import {
        match t.data.import_path {
            Some(p) => ParserStateView { imports: s.imports.push(p), ..s },
            None => s,
        }
    } else {
        match s.current_element {
            CurrentElementView::Model(m) => if m.fields.len() == 0 && text_or_empty(
                t.data.name,
            ).len() > 0 && m.description is None {
                ParserStateView {
                    current_element: CurrentElementView::Model(
                        ModelNodeView { description: Some(text_or_empty(t.data.name)), ..m },
                    ),
                    ..s
                }
            } else {
                s
            },
            _ => s,
        }
    }
}

fn handle_text(token: &Token, state: &mut ParserState)
    ensures
        final(state).deep_view() == on_text(old(state).deep_view(), token.deep_view()),
{
    if token.data.is_import {
        match &token.data.import_path {
            Some(p) => {
                let ghost before = state.imports.deep_view();
                state.imports.push(p.clone());
                proof {
                    assert(state.imports.deep_view() =~= before.push(p@));
                }
            },
            None => {},
        }
        return ;
    }
    match &mut state.current_element {
        CurrentElement::Model(model) => {
            if model.fields.len() == 0 {
                let text = token_name(&token.data);
                if text.as_str().unicode_len() > 0 && model.description.is_none() {
                    model.description = Some(text);
                }
            }
        },
        _ => {},
    }
}

/// The state after one token.
pub open spec fn step(s: ParserStateView, t: TokenView) -> ParserStateView {
    match t.token_type {
        TokenType::Namespace => on_namespace(s, t),
        TokenType::Model | TokenType::Interface => ParserStateView {
            source_directives_done: false,
            ..started(s, CurrentElementView::Model(new_model(t, s.file)))
        },
        TokenType::Enum => started(s, CurrentElementView::Enum(new_enum(t, s.file))),
        TokenType::View => ParserStateView {
            source_directives_done: false,
            ..started(s, CurrentElementView::Model(new_view(t, s.file)))
        },
        TokenType::AttributeDef => start_attr_def(s, t),
        TokenType::Section => on_section(s, t),
        TokenType::Field => on_field(s, t),
        TokenType::NestedItem => on_nested(s, t),
        TokenType::Blockquote => on_blockquote(s, t),
        TokenType::Text => on_text(s, t),
        TokenType::HorizontalRule | TokenType::Blank => s,
    }
}

fn process_token(token: &Token, state: &mut ParserState)
    ensures
        final(state).deep_view() == step(old(state).deep_view(), token.deep_view()),
{
    match token.token_type {
        TokenType::Namespace => handle_namespace(token, state),
        TokenType::Model | TokenType::Interface => handle_model_start(token, state),
        TokenType::Enum => handle_enum_start(token, state),
        TokenType::View => handle_view_start(token, state),
        TokenType::AttributeDef => handle_attribute_def_start(token, state),
        TokenType::Section => handle_section(token, state),
        TokenType::Field => handle_field(token, state),
        TokenType::NestedItem => handle_nested_item(token, state),
        TokenType::Blockquote => handle_blockquote(token, state),
        TokenType::Text => handle_text(token, state),
        TokenType::HorizontalRule | TokenType::Blank => {},
    }
}

/// The state after the tokens from `i` on.
pub open spec fn run(s: ParserStateView, tokens: Seq<TokenView>, i: int) -> ParserStateView
    decreases tokens.len() - i,
{
    if i < 0 || i >= tokens.len() {
        s
    } else {
        run(step(s, tokens[i]), tokens, i + 1)
    }
}

/// What a state holds once all tokens are read.
pub open spec fn file_of(s: ParserStateView) -> ParsedFileView {
    ParsedFileView {
        source: s.file,
        namespace: s.namespace,
        models: s.models,
        enums: s.enums,
        interfaces: s.interfaces,
        views: s.views,
        attribute_registry: s.attribute_registry,
        imports: s.imports,
    }
}

/// What the tokens of `file` hold: the elements in the order of their
/// headings, each kind in a list of its own.
pub open spec fn parsed(tokens: Seq<TokenView>, file: Seq<char>) -> ParsedFileView {
    file_of(finalized(run(initial(file), tokens, 0)))
}

fn new_state(file: &str) -> (r: ParserState)
    ensures
        r.deep_view() == initial(file@),
{
    let r = ParserState {
        file: String::from_str(file),
        namespace: None,
        current_element: CurrentElement::Nothing,
        current_section: None,
        current_kind: FieldKind::Stored,
        last_field_idx: None,
        models: Vec::new(),
        enums: Vec::new(),
        interfaces: Vec::new(),
        views: Vec::new(),
        attribute_registry: Vec::new(),
        current_attr_def: None,
        source_directives_done: false,
        imports: Vec::new(),
    };
    proof {
        assert(r.models.deep_view() =~= Seq::empty());
        assert(r.enums.deep_view() =~= Seq::empty());
        assert(r.interfaces.deep_view() =~= Seq::empty());
        assert(r.views.deep_view() =~= Seq::empty());
        assert(r.attribute_registry.deep_view() =~= Seq::empty());
        assert(r.imports.deep_view() =~= Seq::empty());
    }
    r
}

/// Builds the elements of one file from its tokens.
pub fn parse_tokens(tokens: &[Token], file: &str) -> (r: ParsedFile)
    ensures
        r.deep_view() == parsed(tokens.deep_view(), file@),
{
    let mut state = new_state(file);
    let mut i: usize = 0;
    while i < tokens.len()
        invariant
            i <= tokens@.len(),
            run(state.deep_view(), tokens.deep_view(), i as int) == run(
                initial(file@),
                tokens.deep_view(),
                0,
            ),
        decreases tokens.len() - i,
    {
        proof {
            assert(tokens.deep_view()[i as int] == tokens@[i as int].deep_view());
        }
        process_token(&tokens[i], &mut state);
        i += 1;
    }
    finalize_element(&mut state);
    ParsedFile {
        source: state.file,
        namespace: state.namespace,
        models: state.models,
        enums: state.enums,
        interfaces: state.interfaces,
        views: state.views,
        attribute_registry: state.attribute_registry,
        imports: state.imports,
    }
}

/// Reads the text of one file into its elements.
pub fn parse_string(content: &str, file: &str) -> (r: ParsedFile)
    ensures
        r.deep_view() == parsed(lexed(content@), file@),
{
    let tokens = lex(content, file);
    parse_tokens(tokens.as_slice(), file)
}

} // verus!
