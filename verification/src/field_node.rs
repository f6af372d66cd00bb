//! From the data of a field token to a field of the syntax tree: its kind,
//! its default value, its attributes, and the lookup, rollup or computed
//! definition that its attributes hold.

use vstd::prelude::*;
use crate::catalogs::{is_standard_attribute, standard_attribute_names};
use crate::field_line::{group_or_empty, text_or_empty};
use crate::grammar::{RE_AGG, RE_CUSTOM_ATTR, RE_PLATFORM, RE_WHERE};
use crate::pattern::{captures, found, group, group_text, regex_captures};
use crate::scan::closing_from;
use crate::text::{
    contains_char, find_char, find_from, from_chars, join, opt_string, opt_text, push_all, slice,
    str_eq, strip_chars, substring, texts, to_chars, trim, trim_chars, trim_end_of, trim_of,
    trim_range, trim_start_of,
};
use crate::types::{
    clone_opt_string, clone_vec_attr_arg_value, clone_vec_param_value, clone_vec_string, field_view,
    AttrArgValue, AttrArgView, CodeBlock, CodeBlockView, ComputedDef, ComputedDefView,
    CustomAttribute, CustomAttributeParsed, CustomAttributeParsedView, CustomAttributeView,
    DefaultValueType, FieldAttribute, FieldAttributeView, FieldKind, FieldNode, FieldNodeView,
    LookupDef, LookupDefView, RawAttribute, RawAttributeView, RollupDef, RollupDefView,
    SourceLocation, SourceLocationView, TokenData, TokenDataView,
};
use crate::values::{arg_value, balanced_pieces, parse_arg_value, split_balanced};

verus! {

/// The default value of a field and its type: a text between back quotes is
/// an expression, one between double quotes a literal, both without their
/// quotes; a bare text is an expression where it holds a parenthesis, else a
/// literal.
pub open spec fn default_value_of(raw: Option<Seq<char>>) -> (
    Option<Seq<char>>,
    Option<DefaultValueType>,
) {
    match raw {
        None => (None, None),
        Some(v) => if v.len() >= 2 && v[0] == '`' && v.last() == '`' {
            (Some(v.subrange(1, v.len() - 1)), Some(DefaultValueType::Expression))
        } else if v.len() >= 2 && v[0] == '"' && v.last() == '"' {
            (Some(v.subrange(1, v.len() - 1)), Some(DefaultValueType::Literal))
        } else if v.contains('(') {
            (Some(v), Some(DefaultValueType::Expression))
        } else {
            (Some(v), Some(DefaultValueType::Literal))
        },
    }
}

/// Reads the default value of a field.
pub fn process_default_value(raw: &Option<String>) -> (r: (
    Option<String>,
    Option<DefaultValueType>,
))
    ensures
        (r.0.deep_view(), r.1) == default_value_of(raw.deep_view()),
{
    match raw {
        None => (None, None),
        Some(text) => {
            let v = to_chars(text.as_str());
            let n = v.len();
            if n >= 2 && v[0] == '`' && v[n - 1] == '`' {
                (Some(substring(&v, 1, n - 1)), Some(DefaultValueType::Expression))
            } else if n >= 2 && v[0] == '"' && v[n - 1] == '"' {
                (Some(substring(&v, 1, n - 1)), Some(DefaultValueType::Literal))
            } else if contains_char(&v, '(') {
                (Some(text.clone()), Some(DefaultValueType::Expression))
            } else {
                (Some(text.clone()), Some(DefaultValueType::Literal))
            }
        },
    }
}

/// An attribute of the syntax tree, from one as it was read: no arguments
/// where it has none, and marked as standard where it is.
pub open spec fn field_attr(a: RawAttributeView) -> FieldAttributeView {
    FieldAttributeView {
        name: a.name,
        args: if a.args.len() == 0 {
            None
        } else {
            Some(a.args)
        },
        cascade: a.cascade,
        is_standard: if standard_attribute_names().contains(a.name) {
            Some(true)
        } else {
            None
        },
        is_registered: None,
    }
}

/// The attributes of the syntax tree, from those that were read.
pub open spec fn field_attrs(raw: Seq<RawAttributeView>) -> Seq<FieldAttributeView> {
    Seq::new(raw.len(), |i: int| field_attr(raw[i]))
}

/// Turns the attributes that were read into attributes of the syntax tree.
pub fn parse_raw_attributes(raw: &Vec<RawAttribute>) -> (r: Vec<FieldAttribute>)
    ensures
        r.deep_view() == field_attrs(raw.deep_view()),
{
    let mut out: Vec<FieldAttribute> = Vec::new();
    let mut i: usize = 0;
    while i < raw.len()
        invariant
            i <= raw@.len(),
            out@.len() == i,
            forall|j: int| 0 <= j < i ==> out@[j].deep_view() == field_attr(raw@[j].deep_view()),
        decreases raw.len() - i,
    {
        let a = &raw[i];
        let args = if a.args.len() == 0 {
            None
        } else {
            Some(clone_vec_attr_arg_value(&a.args))
        };
        let is_standard = if is_standard_attribute(a.name.as_str()) {
            Some(true)
        } else {
            None
        };
        out.push(
            FieldAttribute {
                name: a.name.clone(),
                args,
                cascade: clone_opt_string(&a.cascade),
                is_standard,
                is_registered: None,
            },
        );
        i += 1;
    }
    proof {
        assert(out.deep_view() =~= field_attrs(raw.deep_view()));
    }
    out
}

/// The content of a framework attribute: its text without the brackets at its ends.
pub open spec fn custom_content(raw: Seq<char>) -> Seq<char> {
    trim_end_of(trim_start_of(raw, seq!['[']), seq![']'])
}

/// The values written in `a`, separated by the commas outside parentheses.
pub open spec fn custom_arguments(a: Seq<char>) -> Seq<AttrArgView> {
    let p = balanced_pieces(a);
    Seq::new(p.len(), |i: int| arg_value(trim(p[i])))
}

/// What can be read out of a framework attribute, given what the pattern
/// for it found in its content: a name, and arguments where it has any.
pub open spec fn custom_parsed(caps: Option<Seq<Option<Seq<char>>>>) -> Option<
    CustomAttributeParsedView,
> {
    match caps {
        Some(g) => Some(
            CustomAttributeParsedView {
                name: text_or_empty(group_text(g, 1)),
                arguments: match group_text(g, 2) {
                    Some(a) => custom_arguments(a),
                    None => Seq::empty(),
                },
            },
        ),
        None => None,
    }
}

fn read_custom_arguments(a: &Vec<char>) -> (r: Vec<AttrArgValue>)
    ensures
        r.deep_view() == custom_arguments(a@),
{
    let pieces = split_balanced(a);
    let mut out: Vec<AttrArgValue> = Vec::new();
    let mut i: usize = 0;
    while i < pieces.len()
        invariant
            i <= pieces@.len(),
            texts(pieces@) == balanced_pieces(a@),
            out@.len() == i,
            forall|j: int| 0 <= j < i ==> out@[j].deep_view() == arg_value(trim(pieces@[j]@)),
        decreases pieces.len() - i,
    {
        out.push(parse_arg_value(&trim_chars(&pieces[i])));
        i += 1;
    }
    proof {
        assert forall|j: int| 0 <= j < out@.len() implies out.deep_view()[j] == custom_arguments(
            a@,
        )[j] by {
            assert(texts(pieces@)[j] == pieces@[j]@);
        }
        assert(out.deep_view() =~= custom_arguments(a@));
    }
    out
}

/// Reads name and arguments out of what the pattern found in a framework attribute.
pub fn parse_custom_parsed(caps: &Option<Vec<Option<Vec<char>>>>) -> (r: Option<
    CustomAttributeParsed,
>)
    ensures
        r.deep_view() == custom_parsed(found(*caps)),
{
    match caps {
        Some(g) => {
            let arguments = match group(g, 2) {
                Some(a) => read_custom_arguments(&a),
                None => {
                    let e: Vec<AttrArgValue> = Vec::new();
                    proof {
                        assert(e.deep_view() =~= Seq::empty());
                    }
                    e
                },
            };
            Some(CustomAttributeParsed { name: group_or_empty(g, 1), arguments })
        },
        None => None,
    }
}

/// A framework attribute, from its text in brackets.
pub open spec fn custom_attribute(raw: Seq<char>) -> CustomAttributeView {
    CustomAttributeView {
        content: custom_content(raw),
        raw: raw,
        parsed: custom_parsed(regex_captures(RE_CUSTOM_ATTR@, custom_content(raw))),
    }
}

/// The framework attributes of a field; none where none was written.
pub open spec fn custom_attributes(raws: Seq<Seq<char>>) -> Option<Seq<CustomAttributeView>> {
    if raws.len() == 0 {
        None
    } else {
        Some(Seq::new(raws.len(), |i: int| custom_attribute(raws[i])))
    }
}

/// Reads the framework attributes of a field.
pub fn parse_custom_attributes(raws: &Vec<String>) -> (r: Option<Vec<CustomAttribute>>)
    ensures
        r.deep_view() == custom_attributes(raws.deep_view()),
{
    if raws.len() == 0 {
        return None;
    }
    let mut out: Vec<CustomAttribute> = Vec::new();
    let mut i: usize = 0;
    while i < raws.len()
        invariant
            i <= raws@.len(),
            out@.len() == i,
            forall|j: int| 0 <= j < i ==> out@[j].deep_view() == custom_attribute(raws@[j]@),
        decreases raws.len() - i,
    {
        proof {
            reveal_strlit("[");
            reveal_strlit("]");
            assert("["@ =~= seq!['[']);
            assert("]"@ =~= seq![']']);
        }
        let v = to_chars(raws[i].as_str());
        let content = strip_chars(&strip_chars(&v, "[", true, false), "]", false, true);
        let caps = captures(RE_CUSTOM_ATTR, &content);
        let parsed = parse_custom_parsed(&caps);
        out.push(CustomAttribute { content: from_chars(&content), raw: raws[i].clone(), parsed });
        i += 1;
    }
    proof {
        assert(out.deep_view() =~= custom_attributes(raws.deep_view())->0);
    }
    Some(out)
}

/// The parts with `current` added to them, trimmed, unless it is empty then.
pub open spec fn push_trimmed(parts: Seq<Seq<char>>, current: Seq<char>) -> Seq<Seq<char>> {
    let t = trim(current);
    if t.len() > 0 {
        parts.push(t)
    } else {
        parts
    }
}

/// The parts of rollup arguments from `i` on: `current` is the part being
/// read, `depth` the count of open parentheses, `quote` the quote that is
/// open. A comma outside quotes and parentheses ends a part.
pub open spec fn rollup_parts_from(
    s: Seq<char>,
    i: int,
    current: Seq<char>,
    depth: int,
    quote: Option<char>,
    parts: Seq<Seq<char>>,
) -> Seq<Seq<char>>
    decreases s.len() - i,
{
    if i < 0 || i >= s.len() {
        push_trimmed(parts, current)
    } else {
        let ch = s[i];
        match quote {
            Some(q) => rollup_parts_from(
                s,
                i + 1,
                current.push(ch),
                depth,
                if ch == q {
                    None
                } else {
                    quote
                },
                parts,
            ),
            None => if ch == '"' || ch == '\'' {
                rollup_parts_from(s, i + 1, current.push(ch), depth, Some(ch), parts)
            } else if ch == '(' {
                rollup_parts_from(s, i + 1, current.push(ch), depth + 1, quote, parts)
            } else if ch == ')' {
                rollup_parts_from(s, i + 1, current.push(ch), depth - 1, quote, parts)
            } else if ch == ',' && depth == 0 {
                rollup_parts_from(
                    s,
                    i + 1,
                    Seq::empty(),
                    depth,
                    quote,
                    push_trimmed(parts, current),
                )
            } else {
                rollup_parts_from(s, i + 1, current.push(ch), depth, quote, parts)
            },
        }
    }
}

/// The parts of the arguments of a rollup: cut at the commas outside quotes
/// and parentheses, trimmed, the empty ones left out.
pub open spec fn rollup_parts(s: Seq<char>) -> Seq<Seq<char>> {
    rollup_parts_from(s, 0, Seq::empty(), 0, None, Seq::empty())
}

/// Cuts the arguments of a rollup into its parts.
pub fn split_rollup_args(s: &Vec<char>) -> (r: Vec<Vec<char>>)
    ensures
        texts(r@) == rollup_parts(s@),
{
    let n = s.len();
    let mut parts: Vec<Vec<char>> = Vec::new();
    let mut current: Vec<char> = Vec::new();
    let mut depth: i128 = 0;
    let mut quote: Option<char> = None;
    let mut i: usize = 0;
    proof {
        assert(texts(parts@) =~= Seq::empty());
    }
    while i < n
        invariant
            i <= n == s@.len(),
            -(i as int) <= depth <= i as int,
            rollup_parts_from(s@, i as int, current@, depth as int, quote, texts(parts@))
                == rollup_parts(s@),
        decreases n - i,
    {
        let ch = s[i];
        match quote {
            Some(q) => {
                current.push(ch);
                if ch == q {
                    quote = None;
                }
            },
            None => {
                if ch == '"' || ch == '\'' {
                    quote = Some(ch);
                    current.push(ch);
                } else if ch == '(' {
                    depth += 1;
                    current.push(ch);
                } else if ch == ')' {
                    depth -= 1;
                    current.push(ch);
                } else if ch == ',' && depth == 0 {
                    let t = trim_chars(&current);
                    let ghost before = texts(parts@);
                    if t.len() > 0 {
                        parts.push(t);
                        proof {
                            assert(texts(parts@) =~= before.push(trim(current@)));
                        }
                    }
                    current = Vec::new();
                } else {
                    current.push(ch);
                }
            },
        }
        i += 1;
    }
    let t = trim_chars(&current);
    let ghost before = texts(parts@);
    if t.len() > 0 {
        parts.push(t);
        proof {
            assert(texts(parts@) =~= before.push(trim(current@)));
        }
    }
    parts
}

/// The aggregate of a rollup and the field it runs over, given what the
/// aggregate pattern found in `part`: `name(field)`, or a name alone.
pub open spec fn aggregate_of(part: Seq<char>, caps: Option<Seq<Option<Seq<char>>>>) -> (
    Seq<char>,
    Option<Seq<char>>,
) {
    match caps {
        Some(g) => (text_or_empty(group_text(g, 1)), group_text(g, 2)),
        None => (part, None),
    }
}

/// Reads the aggregate of a rollup from what the aggregate pattern found in `part`.
pub fn read_aggregate(part: &Vec<char>, caps: &Option<Vec<Option<Vec<char>>>>) -> (r: (
    String,
    Option<String>,
))
    ensures
        (r.0@, r.1.deep_view()) == aggregate_of(part@, found(*caps)),
{
    match caps {
        Some(g) => (group_or_empty(g, 1), opt_string(&group(g, 2))),
        None => (from_chars(part), None),
    }
}

/// The `where` condition among the parts from `i` on: that of the last part
/// that is one, or `acc`.
pub open spec fn where_from(parts: Seq<Seq<char>>, i: int, acc: Option<Seq<char>>) -> Option<
    Seq<char>,
>
    decreases parts.len() - i,
{
    if i < 0 || i >= parts.len() {
        acc
    } else {
        match regex_captures(RE_WHERE@, trim(parts[i])) {
            Some(g) => where_from(parts, i + 1, Some(text_or_empty(group_text(g, 1)))),
            None => where_from(parts, i + 1, acc),
        }
    }
}

fn find_where(parts: &Vec<Vec<char>>) -> (r: Option<String>)
    ensures
        r.deep_view() == where_from(texts(parts@), 2, None),
{
    let mut acc: Option<String> = None;
    let mut i: usize = 2;
    while i < parts.len()
        invariant
            2 <= i,
            where_from(texts(parts@), i as int, acc.deep_view()) == where_from(
                texts(parts@),
                2,
                None,
            ),
        decreases parts.len() - i,
    {
        proof {
            assert(texts(parts@)[i as int] == parts@[i as int]@);
        }
        match captures(RE_WHERE, &trim_chars(&parts[i])) {
            Some(g) => {
                acc = Some(group_or_empty(&g, 1));
            },
            None => {},
        }
        i += 1;
    }
    acc
}

/// The definition of a rollup, from its parts: the first is `Target.fk`, the
/// second the aggregate, and a later one may be a `where` condition.
pub open spec fn rollup_of_parts(parts: Seq<Seq<char>>) -> RollupDefView {
    let target_fk = if parts.len() > 0 {
        parts[0]
    } else {
        Seq::empty()
    };
    let dot = find_from(target_fk, '.', 0);
    let aggregate = if parts.len() > 1 {
        aggregate_of(trim(parts[1]), regex_captures(RE_AGG@, trim(parts[1])))
    } else {
        (Seq::empty(), None)
    };
    RollupDefView {
        target: if 0 <= dot < target_fk.len() {
            target_fk.subrange(0, dot)
        } else {
            target_fk
        },
        fk: if 0 <= dot < target_fk.len() {
            target_fk.subrange(dot + 1, target_fk.len() as int)
        } else {
            Seq::empty()
        },
        aggregate: aggregate.0,
        field: aggregate.1,
        where_clause: where_from(parts, 2, None),
    }
}

/// The definition of a rollup, from the text of its arguments.
pub open spec fn rollup_def(args: Seq<char>) -> RollupDefView {
    rollup_of_parts(rollup_parts(args))
}

/// Reads the arguments of a rollup: `Target.fk, aggregate(field), where: "..."`.
pub fn parse_rollup_args(args: &Vec<char>) -> (r: RollupDef)
    ensures
        r.deep_view() == rollup_def(args@),
{
    let parts = split_rollup_args(args);
    let target_fk = if parts.len() > 0 {
        proof {
            assert(texts(parts@)[0] == parts@[0]@);
        }
        slice(&parts[0], 0, parts[0].len())
    } else {
        Vec::new()
    };
    proof {
        if parts@.len() > 0 {
            assert(parts@[0]@.subrange(0, parts@[0]@.len() as int) =~= parts@[0]@);
        } else {
            assert(target_fk@ =~= Seq::empty());
        }
    }
    let n = target_fk.len();
    let dot = find_char(&target_fk, '.', 0);
    let (target, fk) = if dot < n {
        (substring(&target_fk, 0, dot), substring(&target_fk, dot + 1, n))
    } else {
        (from_chars(&target_fk), String::new())
    };
    let (aggregate, field) = if parts.len() > 1 {
        proof {
            assert(texts(parts@)[1] == parts@[1]@);
        }
        let part = trim_chars(&parts[1]);
        let caps = captures(RE_AGG, &part);
        read_aggregate(&part, &caps)
    } else {
        (String::new(), None)
    };
    let where_clause = find_where(&parts);
    RollupDef { target, fk, aggregate, field, where_clause }
}

/// The position of the first attribute from `from` on with the name `name`,
/// or the number of attributes.
pub open spec fn attr_index(attrs: Seq<FieldAttributeView>, name: Seq<char>, from: int) -> int
    decreases attrs.len() - from,
{
    if from < 0 || from >= attrs.len() {
        attrs.len() as int
    } else if attrs[from].name == name {
        from
    } else {
        attr_index(attrs, name, from + 1)
    }
}

/// `attr_index` gives a position with the name, and none before it has it.
pub proof fn lemma_attr_index(attrs: Seq<FieldAttributeView>, name: Seq<char>, from: int)
    requires
        0 <= from <= attrs.len(),
    ensures
        from <= attr_index(attrs, name, from) <= attrs.len(),
        attr_index(attrs, name, from) < attrs.len() ==> attrs[attr_index(attrs, name, from)].name
            == name,
        forall|j: int| from <= j < attr_index(attrs, name, from) ==> attrs[j].name != name,
    decreases attrs.len() - from,
{
    if from < attrs.len() && attrs[from].name != name {
        lemma_attr_index(attrs, name, from + 1);
    }
}

/// The first attribute with the name `name`.
pub open spec fn named_attr(attrs: Seq<FieldAttributeView>, name: Seq<char>) -> Option<
    FieldAttributeView,
> {
    let i = attr_index(attrs, name, 0);
    if 0 <= i < attrs.len() {
        Some(attrs[i])
    } else {
        None
    }
}

/// Whether an attribute with the name `name` is among `attrs`.
pub open spec fn has_attr(attrs: Seq<FieldAttributeView>, name: Seq<char>) -> bool {
    named_attr(attrs, name) is Some
}

/// The position of the first attribute with the name `name`.
pub fn find_attr(attrs: &Vec<FieldAttribute>, name: &str) -> (r: Option<usize>)
    ensures
        match r {
            Some(i) => i < attrs@.len() && named_attr(attrs.deep_view(), name@) == Some(
                attrs@[i as int].deep_view(),
            ),
            None => named_attr(attrs.deep_view(), name@) is None,
        },
{
    let mut i: usize = 0;
    while i < attrs.len()
        invariant
            i <= attrs@.len(),
            attr_index(attrs.deep_view(), name@, i as int) == attr_index(
                attrs.deep_view(),
                name@,
                0,
            ),
        decreases attrs.len() - i,
    {
        proof {
            assert(attrs.deep_view()[i as int].name == attrs@[i as int].name@);
        }
        if str_eq(attrs[i].name.as_str(), name) {
            return Some(i);
        }
        i += 1;
    }
    None
}

/// The first argument of an attribute.
pub open spec fn first_arg(a: FieldAttributeView) -> Option<AttrArgView> {
    match a.args {
        Some(v) => if v.len() > 0 {
            Some(v[0])
        } else {
            None
        },
        None => None,
    }
}

/// The text of the first argument of an attribute, where that is a string.
pub open spec fn first_text(a: FieldAttributeView) -> Option<Seq<char>> {
    match first_arg(a) {
        Some(AttrArgView::String(s)) => Some(s),
        _ => None,
    }
}

fn first_text_of(a: &FieldAttribute) -> (r: Option<Vec<char>>)
    ensures
        opt_text(r) == first_text(a.deep_view()),
{
    match &a.args {
        Some(v) => {
            if v.len() > 0 {
                proof {
                    assert(a.deep_view().args->0[0] == v@[0].deep_view());
                }
                match &v[0] {
                    AttrArgValue::String(s) => Some(to_chars(s.as_str())),
                    _ => None,
                }
            } else {
                None
            }
        },
        None => None,
    }
}

/// The kind of a field: that of the attribute `@lookup`, `@rollup`,
/// `@computed` or `@computed_raw` it carries, in this order; else `current`,
/// the kind that the section gives.
pub open spec fn kind_of(current: FieldKind, attrs: Seq<FieldAttributeView>) -> FieldKind {
    if has_attr(attrs, "lookup"@) {
        FieldKind::Lookup
    } else if has_attr(attrs, "rollup"@) {
        FieldKind::Rollup
    } else if has_attr(attrs, "computed"@) || has_attr(attrs, "computed_raw"@) {
        FieldKind::Computed
    } else {
        current
    }
}

/// The lookup of a field: the path that `@lookup` names.
pub open spec fn lookup_of(attrs: Seq<FieldAttributeView>) -> Option<LookupDefView> {
    match named_attr(attrs, "lookup"@) {
        Some(a) => match first_text(a) {
            Some(p) => Some(LookupDefView { path: p }),
            None => None,
        },
        None => None,
    }
}

/// An argument as text; a number is its text as written.
pub open spec fn arg_text(a: AttrArgView) -> Seq<char> {
    match a {
        AttrArgView::String(s) => s,
        AttrArgView::Number(n) => n,
        AttrArgView::Bool(b) => if b {
            "true"@
        } else {
            "false"@
        },
    }
}

/// The arguments as texts.
pub open spec fn arg_texts(args: Seq<AttrArgView>) -> Seq<Seq<char>> {
    Seq::new(args.len(), |i: int| arg_text(args[i]))
}

/// The arguments of a rollup put together again, with `, ` between them.
pub open spec fn rollup_text(args: Seq<AttrArgView>) -> Seq<char> {
    join(arg_texts(args), seq![',', ' '])
}

fn join_args(args: &Vec<AttrArgValue>) -> (r: Vec<char>)
    ensures
        r@ == rollup_text(args.deep_view()),
{
    let mut out: Vec<char> = Vec::new();
    let mut k: usize = 0;
    let ghost all = arg_texts(args.deep_view());
    proof {
        assert(all.take(0) =~= Seq::empty());
    }
    while k < args.len()
        invariant
            k <= args@.len(),
            all == arg_texts(args.deep_view()),
            out@ == join(all.take(k as int), seq![',', ' ']),
        decreases args.len() - k,
    {
        let piece = match &args[k] {
            AttrArgValue::String(s) => to_chars(s.as_str()),
            AttrArgValue::Number(n) => to_chars(n.text.as_str()),
            AttrArgValue::Bool(b) => if *b {
                to_chars("true")
            } else {
                to_chars("false")
            },
        };
        let ghost before = all.take(k as int);
        let ghost after = all.take(k + 1);
        proof {
            assert(args.deep_view()[k as int] == args@[k as int].deep_view());
            assert(after.drop_last() =~= before);
            assert(after.last() == piece@);
        }
        if k > 0 {
            out.push(',');
            out.push(' ');
            push_all(&mut out, &piece);
            proof {
                assert(out@ =~= join(before, seq![',', ' ']) + seq![',', ' '] + piece@);
            }
        } else {
            push_all(&mut out, &piece);
            proof {
                assert(out@ =~= piece@);
            }
        }
        k += 1;
    }
    proof {
        assert(all.take(args@.len() as int) =~= all);
    }
    out
}

/// The rollup of a field: what the arguments of `@rollup` define.
pub open spec fn rollup_of(attrs: Seq<FieldAttributeView>) -> Option<RollupDefView> {
    match named_attr(attrs, "rollup"@) {
        Some(a) => match a.args {
            Some(args) => Some(rollup_def(rollup_text(args))),
            None => None,
        },
        None => None,
    }
}

/// The three quote characters.
pub open spec fn quote_marks() -> Seq<char> {
    seq!['"', '\'', '`']
}

fn strip_quote_marks(v: &Vec<char>) -> (r: Vec<char>)
    ensures
        r@ == trim_of(v@, quote_marks()),
{
    proof {
        reveal_strlit("\"'`");
        assert("\"'`"@ =~= quote_marks());
    }
    strip_chars(v, "\"'`", true, true)
}

/// The platform that the platform pattern found.
pub open spec fn platform_of(caps: Option<Seq<Option<Seq<char>>>>) -> Option<Seq<char>> {
    match caps {
        Some(g) => Some(text_or_empty(group_text(g, 1))),
        None => None,
    }
}

/// Reads the platform out of what the platform pattern found.
pub fn read_platform(caps: &Option<Vec<Option<Vec<char>>>>) -> (r: Option<String>)
    ensures
        r.deep_view() == platform_of(found(*caps)),
{
    match caps {
        Some(g) => Some(group_or_empty(g, 1)),
        None => None,
    }
}

/// The expression at the start of a raw computed argument, and what follows
/// it, trimmed: an argument that opens with a quote runs to the quote that
/// closes it; any other is an expression as a whole.
pub open spec fn raw_expression(raw: Seq<char>) -> (Seq<char>, Seq<char>) {
    if raw.len() > 0 && quote_marks().contains(raw[0]) {
        match closing_from(raw, raw[0], 1) {
            Some(c) => if 0 < c < raw.len() {
                (raw.subrange(0, c + 1), trim(raw.subrange(c + 1, raw.len() as int)))
            } else {
                (raw, Seq::empty())
            },
            None => (raw, Seq::empty()),
        }
    } else {
        (raw, Seq::empty())
    }
}

/// The expression and the platform of a raw computed argument.
pub open spec fn raw_parts(raw: Seq<char>) -> (Seq<char>, Option<Seq<char>>) {
    if raw.len() > 0 && quote_marks().contains(raw[0]) {
        (
            raw_expression(raw).0,
            platform_of(regex_captures(RE_PLATFORM@, raw_expression(raw).1)),
        )
    } else {
        (raw, None)
    }
}

/// Splits a raw computed argument into its expression and its platform.
pub fn split_computed_raw_args(raw: &Vec<char>) -> (r: (Vec<char>, Option<String>))
    ensures
        (r.0@, r.1.deep_view()) == raw_parts(raw@),
{
    let n = raw.len();
    proof {
        assert(raw@.subrange(0, n as int) =~= raw@);
    }
    if n > 0 && (raw[0] == '"' || raw[0] == '\'' || raw[0] == '`') {
        proof {
            assert(quote_marks().contains(raw@[0])) by {
                assert(quote_marks()[0] == '"' && quote_marks()[1] == '\'' && quote_marks()[2]
                    == '`');
            }
        }
        let close = if raw[0] == '\'' {
            let c = find_single_close(raw);
            c
        } else if raw[0] == '"' {
            crate::scan::find_closing_quote(raw, 0)
        } else {
            crate::scan::find_closing_backtick(raw, 0)
        };
        match close {
            Some(c) => {
                let rest = trim_range(raw, c + 1, n);
                let caps = captures(RE_PLATFORM, &rest);
                (slice(raw, 0, c + 1), read_platform(&caps))
            },
            None => {
                let rest: Vec<char> = Vec::new();
                let caps = captures(RE_PLATFORM, &rest);
                (slice(raw, 0, n), read_platform(&caps))
            },
        }
    } else {
        proof {
            if n > 0 {
                assert(!quote_marks().contains(raw@[0]));
            }
        }
        (slice(raw, 0, n), None)
    }
}

fn find_single_close(v: &Vec<char>) -> (r: Option<usize>)
    requires
        v@.len() > 0,
    ensures
        crate::scan::position(r) == closing_from(v@, '\'', 1),
        r matches Some(c) ==> 0 < c < v@.len(),
{
    let n = v.len();
    let mut i: usize = 1;
    while i < n
        invariant
            1 <= i,
            n == v@.len(),
            closing_from(v@, '\'', i as int) == closing_from(v@, '\'', 1),
        decreases n - i,
    {
        if v[i] == '\\' {
            if n - i < 2 {
                return None;
            }
            i += 2;
        } else if v[i] == '\'' {
            return Some(i);
        } else {
            i += 1;
        }
    }
    None
}

/// The platform named in the arguments from `i` on: that of the first
/// string among them in which the platform pattern finds one.
pub open spec fn platform_from(args: Seq<AttrArgView>, i: int) -> Option<Seq<char>>
    decreases args.len() - i,
{
    if i < 0 || i >= args.len() {
        None
    } else {
        match args[i] {
            AttrArgView::String(s) => match regex_captures(RE_PLATFORM@, s) {
                Some(g) => Some(text_or_empty(group_text(g, 1))),
                None => platform_from(args, i + 1),
            },
            _ => platform_from(args, i + 1),
        }
    }
}

fn find_platform(args: &Vec<AttrArgValue>, from: usize) -> (r: Option<String>)
    ensures
        r.deep_view() == platform_from(args.deep_view(), from as int),
{
    let mut i: usize = from;
    while i < args.len()
        invariant
            from <= i,
            platform_from(args.deep_view(), i as int) == platform_from(
                args.deep_view(),
                from as int,
            ),
        decreases args.len() - i,
    {
        proof {
            assert(args.deep_view()[i as int] == args@[i as int].deep_view());
        }
        match &args[i] {
            AttrArgValue::String(s) => {
                let caps = captures(RE_PLATFORM, &to_chars(s.as_str()));
                match caps {
                    Some(g) => {
                        return Some(group_or_empty(&g, 1));
                    },
                    None => {},
                }
            },
            _ => {},
        }
        i += 1;
    }
    None
}

/// The computed definition that `@computed` holds: its first argument,
/// without the quotes at its ends.
pub open spec fn plain_computed(attrs: Seq<FieldAttributeView>) -> Option<ComputedDefView> {
    match named_attr(attrs, "computed"@) {
        Some(a) => match first_text(a) {
            Some(e) => Some(
                ComputedDefView { expression: trim_of(e, quote_marks()), platform: None },
            ),
            None => None,
        },
        None => None,
    }
}

/// The computed definition that `@computed_raw` holds: the expression of its
/// first argument, and the platform named behind the expression or in a
/// later argument.
pub open spec fn raw_computed(attrs: Seq<FieldAttributeView>) -> Option<ComputedDefView> {
    match named_attr(attrs, "computed_raw"@) {
        Some(a) => match first_text(a) {
            Some(e) => Some(
                ComputedDefView {
                    expression: trim_of(raw_parts(e).0, quote_marks()),
                    platform: match raw_parts(e).1 {
                        Some(p) => Some(p),
                        None => platform_from(a.args->0, 1),
                    },
                },
            ),
            None => None,
        },
        None => None,
    }
}

/// The computed definition that a code block gives to a field with
/// `@computed` or `@computed_raw`: the block is the expression; the platform
/// is the one that the first argument of `@computed_raw` names.
pub open spec fn block_computed(
    attrs: Seq<FieldAttributeView>,
    block: Option<CodeBlockView>,
) -> Option<ComputedDefView> {
    match block {
        Some(cb) => if has_attr(attrs, "computed"@) || has_attr(attrs, "computed_raw"@) {
            Some(
                ComputedDefView {
                    expression: cb.content,
                    platform: match named_attr(attrs, "computed_raw"@) {
                        Some(a) => match first_text(a) {
                            Some(s) => platform_of(regex_captures(RE_PLATFORM@, s)),
                            None => None,
                        },
                        None => None,
                    },
                },
            )
        } else {
            None
        },
        None => None,
    }
}

/// The computed definition of a field: that of `@computed_raw`, else that of
/// `@computed`, else that of the code block attached to the field.
pub open spec fn computed_of(attrs: Seq<FieldAttributeView>, block: Option<CodeBlockView>) -> Option<
    ComputedDefView,
> {
    match raw_computed(attrs) {
        Some(c) => Some(c),
        None => match plain_computed(attrs) {
            Some(c) => Some(c),
            None => block_computed(attrs, block),
        },
    }
}

fn read_lookup(attrs: &Vec<FieldAttribute>) -> (r: Option<LookupDef>)
    ensures
        r.deep_view() == lookup_of(attrs.deep_view()),
{
    match find_attr(attrs, "lookup") {
        Some(i) => match first_text_of(&attrs[i]) {
            Some(p) => Some(LookupDef { path: from_chars(&p) }),
            None => None,
        },
        None => None,
    }
}

fn read_rollup(attrs: &Vec<FieldAttribute>) -> (r: Option<RollupDef>)
    ensures
        r.deep_view() == rollup_of(attrs.deep_view()),
{
    match find_attr(attrs, "rollup") {
        Some(i) => match &attrs[i].args {
            Some(args) => Some(parse_rollup_args(&join_args(args))),
            None => None,
        },
        None => None,
    }
}

fn read_plain_computed(attrs: &Vec<FieldAttribute>) -> (r: Option<ComputedDef>)
    ensures
        r.deep_view() == plain_computed(attrs.deep_view()),
{
    match find_attr(attrs, "computed") {
        Some(i) => match first_text_of(&attrs[i]) {
            Some(e) => Some(
                ComputedDef { expression: from_chars(&strip_quote_marks(&e)), platform: None },
            ),
            None => None,
        },
        None => None,
    }
}

fn read_raw_computed(attrs: &Vec<FieldAttribute>) -> (r: Option<ComputedDef>)
    ensures
        r.deep_view() == raw_computed(attrs.deep_view()),
{
    match find_attr(attrs, "computed_raw") {
        Some(i) => match first_text_of(&attrs[i]) {
            Some(e) => {
                let (expression, platform) = split_computed_raw_args(&e);
                let platform = match platform {
                    Some(p) => Some(p),
                    None => match &attrs[i].args {
                        Some(args) => find_platform(args, 1),
                        None => None,
                    },
                };
                Some(
                    ComputedDef {
                        expression: from_chars(&strip_quote_marks(&expression)),
                        platform,
                    },
                )
            },
            None => None,
        },
        None => None,
    }
}

fn read_block_computed(attrs: &Vec<FieldAttribute>, block: &Option<CodeBlock>) -> (r: Option<
    ComputedDef,
>)
    ensures
        r.deep_view() == block_computed(attrs.deep_view(), block.deep_view()),
{
    match block {
        Some(cb) => {
            let raw = find_attr(attrs, "computed_raw");
            if find_attr(attrs, "computed").is_some() || raw.is_some() {
                let platform = match raw {
                    Some(i) => match first_text_of(&attrs[i]) {
                        Some(s) => read_platform(&captures(RE_PLATFORM, &s)),
                        None => None,
                    },
                    None => None,
                };
                Some(ComputedDef { expression: cb.content.clone(), platform })
            } else {
                None
            }
        },
        None => None,
    }
}

fn read_computed(attrs: &Vec<FieldAttribute>, block: &Option<CodeBlock>) -> (r: Option<
    ComputedDef,
>)
    ensures
        r.deep_view() == computed_of(attrs.deep_view(), block.deep_view()),
{
    match read_raw_computed(attrs) {
        Some(c) => Some(c),
        None => match read_plain_computed(attrs) {
            Some(c) => Some(c),
            None => read_block_computed(attrs, block),
        },
    }
}

fn read_kind(current: FieldKind, attrs: &Vec<FieldAttribute>) -> (r: FieldKind)
    ensures
        r == kind_of(current, attrs.deep_view()),
{
    if find_attr(attrs, "lookup").is_some() {
        FieldKind::Lookup
    } else if find_attr(attrs, "rollup").is_some() {
        FieldKind::Rollup
    } else if find_attr(attrs, "computed").is_some() || find_attr(attrs, "computed_raw").is_some() {
        FieldKind::Computed
    } else {
        current
    }
}

/// The description of a field: the quoted lines below it where there are
/// any, else the comment on its line where there is one, else the
/// description on its line. So a comment overrides the description, and
/// quoted lines override both.
pub open spec fn description_of(data: TokenDataView) -> Option<Seq<char>> {
    match data.blockquote_desc {
        Some(b) => Some(b),
        None => match data.comment {
            Some(c) => Some(c),
            None => data.description,
        },
    }
}

/// The definition that a field of the kind `kind` keeps, where `wanted` is
/// the kind that the definition belongs to: a field has the definition of
/// its own kind and no other.
pub open spec fn for_kind<T>(kind: FieldKind, wanted: FieldKind, definition: Option<T>) -> Option<T> {
    if kind == wanted {
        definition
    } else {
        None
    }
}

/// The field that a field token on line `line` of `file` makes, under a
/// section that gives the kind `current`.
pub open spec fn field_node(
    data: TokenDataView,
    line: usize,
    file: Seq<char>,
    current: FieldKind,
) -> FieldNodeView {
    let attrs = field_attrs(data.attributes);
    let value = default_value_of(data.default_value);
    FieldNodeView {
        name: text_or_empty(data.name),
        label: data.label,
        field_type: data.field_type,
        params: if data.type_params.len() == 0 {
            None
        } else {
            Some(data.type_params)
        },
        generic_params: if data.type_generic_params.len() == 0 {
            None
        } else {
            Some(data.type_generic_params)
        },
        nullable: data.nullable,
        array: data.array,
        array_item_nullable: data.array_item_nullable,
        kind: kind_of(current, attrs),
        default_value: value.0,
        default_value_type: value.1,
        description: description_of(data),
        attributes: attrs,
        framework_attrs: custom_attributes(data.framework_attrs),
        lookup: for_kind(kind_of(current, attrs), FieldKind::Lookup, lookup_of(attrs)),
        rollup: for_kind(kind_of(current, attrs), FieldKind::Rollup, rollup_of(attrs)),
        computed: for_kind(
            kind_of(current, attrs),
            FieldKind::Computed,
            computed_of(attrs, data.code_block),
        ),
        enum_values: None,
        fields: None,
        loc: SourceLocationView { file: file, line: line, col: 1 },
    }
}

fn read_description(data: &TokenData) -> (r: Option<String>)
    ensures
        r.deep_view() == description_of(data.deep_view()),
{
    match &data.blockquote_desc {
        Some(b) => Some(b.clone()),
        None => match &data.comment {
            Some(c) => Some(c.clone()),
            None => clone_opt_string(&data.description),
        },
    }
}

/// Builds the field of a field token.
pub fn build_field_node(data: &TokenData, line: usize, file: &str, current: FieldKind) -> (r:
    FieldNode)
    ensures
        field_view(&r) == field_node(data.deep_view(), line, file@, current),
{
    let attrs = parse_raw_attributes(&data.attributes);
    let (default_value, default_value_type) = process_default_value(&data.default_value);
    let params = if data.type_params.len() == 0 {
        None
    } else {
        Some(clone_vec_param_value(&data.type_params))
    };
    let generic_params = if data.type_generic_params.len() == 0 {
        None
    } else {
        Some(clone_vec_string(&data.type_generic_params))
    };
    let name = match &data.name {
        Some(n) => n.clone(),
        None => String::new(),
    };
    let kind = read_kind(current, &attrs);
    let lookup = match kind {
        FieldKind::Lookup => read_lookup(&attrs),
        _ => None,
    };
    let rollup = match kind {
        FieldKind::Rollup => read_rollup(&attrs),
        _ => None,
    };
    let computed = match kind {
        FieldKind::Computed => read_computed(&attrs, &data.code_block),
        _ => None,
    };
    FieldNode {
        name,
        label: clone_opt_string(&data.label),
        field_type: clone_opt_string(&data.field_type),
        params,
        generic_params,
        nullable: data.nullable,
        array: data.array,
        array_item_nullable: data.array_item_nullable,
        kind,
        default_value,
        default_value_type,
        description: read_description(data),
        attributes: attrs,
        framework_attrs: parse_custom_attributes(&data.framework_attrs),
        lookup,
        rollup,
        computed,
        enum_values: None,
        fields: None,
        loc: SourceLocation { file: String::from_str(file), line, col: 1 },
    }
}

/// An attribute with one argument, as the extended format of a field adds it.
pub open spec fn extended_attr(key: Seq<char>, arg: AttrArgView, standard: bool) -> FieldAttributeView {
    FieldAttributeView {
        name: key,
        args: Some(seq![arg]),
        cascade: None,
        is_standard: if standard {
            Some(true)
        } else {
            None
        },
        is_registered: None,
    }
}

/// The type named by the `type` key of the extended format: the text without
/// a `?` at its end and without a `[]` before that.
pub open spec fn extended_type(value: Seq<char>) -> (Seq<char>, bool, bool) {
    let nullable = value.len() > 0 && value.last() == '?';
    let a = if nullable {
        value.drop_last()
    } else {
        value
    };
    let array = a.len() >= 2 && a[a.len() - 2] == '[' && a[a.len() - 1] == ']';
    (
        if array {
            a.subrange(0, a.len() - 2)
        } else {
            a
        },
        nullable,
        array,
    )
}

/// The field with what the nested item `key: value` says of it: `type` sets
/// the type and may make the field nullable or an array, `description` sets
/// the description, and any other key adds an attribute with the value as
/// its argument.
pub open spec fn extended(f: FieldNodeView, key: Seq<char>, value: Seq<char>) -> FieldNodeView {
    if key == "type"@ {
        let t = extended_type(value);
        FieldNodeView {
            field_type: Some(t.0),
            nullable: f.nullable || t.1,
            array: f.array || t.2,
            ..f
        }
    } else if key == "description"@ {
        FieldNodeView { description: Some(trim_of(value, crate::values::quotes())), ..f }
    } else if key == "reference"@ || key == "on_delete"@ {
        FieldNodeView {
            attributes: f.attributes.push(extended_attr(key, AttrArgView::String(value), true)),
            ..f
        }
    } else {
        FieldNodeView {
            attributes: f.attributes.push(
                extended_attr(key, arg_value(value), standard_attribute_names().contains(key)),
            ),
            ..f
        }
    }
}

fn make_extended_attr(key: &str, arg: AttrArgValue, standard: bool) -> (r: FieldAttribute)
    ensures
        r.deep_view() == extended_attr(key@, arg.deep_view(), standard),
{
    let mut args: Vec<AttrArgValue> = Vec::new();
    args.push(arg);
    proof {
        assert(args.deep_view() =~= seq![arg.deep_view()]);
    }
    FieldAttribute {
        name: String::from_str(key),
        args: Some(args),
        cascade: None,
        is_standard: if standard {
            Some(true)
        } else {
            None
        },
        is_registered: None,
    }
}

/// Applies a nested item `key: value` to the field it stands under.
pub fn apply_extended_attribute(field: &mut FieldNode, key: &str, value: &str)
    ensures
        field_view(final(field)) == extended(field_view(old(field)), key@, value@),
{
    let v = to_chars(value);
    let ghost before = field.attributes.deep_view();
    if str_eq(key, "type") {
        let n = v.len();
        let nullable = n > 0 && v[n - 1] == '?';
        let m = if nullable {
            n - 1
        } else {
            n
        };
        let array = m >= 2 && v[m - 2] == '[' && v[m - 1] == ']';
        let end = if array {
            m - 2
        } else {
            m
        };
        proof {
            let a = if nullable {
                v@.drop_last()
            } else {
                v@
            };
            assert(a =~= v@.subrange(0, m as int));
            assert(a.subrange(0, end as int) =~= v@.subrange(0, end as int));
            assert(a.subrange(0, a.len() as int) =~= a);
        }
        if nullable {
            field.nullable = true;
        }
        if array {
            field.array = true;
        }
        field.field_type = Some(substring(&v, 0, end));
    } else if str_eq(key, "description") {
        proof {
            reveal_strlit("\"'");
            assert("\"'"@ =~= crate::values::quotes());
        }
        field.description = Some(from_chars(&strip_chars(&v, "\"'", true, true)));
    } else if str_eq(key, "reference") || str_eq(key, "on_delete") {
        let attr = make_extended_attr(key, AttrArgValue::String(String::from_str(value)), true);
        field.attributes.push(attr);
        proof {
            assert(field.attributes.deep_view() =~= before.push(attr.deep_view()));
        }
    } else {
        let attr = make_extended_attr(key, parse_arg_value(&v), is_standard_attribute(key));
        field.attributes.push(attr);
        proof {
            assert(field.attributes.deep_view() =~= before.push(attr.deep_view()));
        }
    }
}

} // verus!
