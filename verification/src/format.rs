//! A tree written out again as source text, in a standard form.

use vstd::prelude::*;
use crate::field_node::{arg_text, arg_texts};
use crate::pipeline::{build_ast, no_files_error, parsed_files};
use crate::report::say;
use crate::resolver::resolved;
use crate::text::{from_chars, join, push_all};
use crate::types::{
    field_view, lemma_field_view_fields, AttrArgValue, AttrArgView, EnumNode, EnumNodeView,
    EnumValueView, FieldAttribute, FieldAttributeView, FieldNode, FieldNodeView, M3lAst, M3lAstView,
    M3lFile, ModelNode, ModelNodeView, ParamValue, ParamView, ProjectInfo,
};

verus! {

/// An argument as it is written out.
pub fn format_arg(arg: &AttrArgValue) -> (r: String)
    ensures
        r@ == arg_text(arg.deep_view()),
{
    match arg {
        AttrArgValue::String(s) => s.clone(),
        AttrArgValue::Number(n) => n.text.clone(),
        AttrArgValue::Bool(b) => if *b {
            String::from_str("true")
        } else {
            String::from_str("false")
        },
    }
}

/// The arguments of an attribute in parentheses, with `, ` between them.
pub open spec fn args_text(args: Seq<AttrArgView>) -> Seq<char> {
    "("@ + join(arg_texts(args), ", "@) + ")"@
}

fn say_args(t: &mut Vec<char>, args: &Vec<AttrArgValue>)
    ensures
        final(t)@ == old(t)@ + args_text(args.deep_view()),
{
    let ghost start = t@;
    let ghost all = arg_texts(args.deep_view());
    let mut inner: Vec<char> = Vec::new();
    let mut k: usize = 0;
    proof {
        assert(all.take(0) =~= Seq::empty());
    }
    while k < args.len()
        invariant
            k <= args@.len(),
            all == arg_texts(args.deep_view()),
            inner@ == join(all.take(k as int), ", "@),
        decreases args.len() - k,
    {
        let piece = format_arg(&args[k]);
        let ghost before = all.take(k as int);
        let ghost after = all.take(k + 1);
        let ghost now = inner@;
        proof {
            assert(args.deep_view()[k as int] == args@[k as int].deep_view());
            assert(after.drop_last() =~= before);
            assert(after.last() == piece@);
        }
        if k > 0 {
            say(&mut inner, ", ");
        }
        say(&mut inner, piece.as_str());
        proof {
            if k > 0 {
                assert(inner@ =~= now + ", "@ + piece@);
            } else {
                assert(inner@ =~= piece@);
            }
        }
        k += 1;
    }
    proof {
        assert(all.take(args@.len() as int) =~= all);
    }
    say(t, "(");
    push_all(t, &inner);
    say(t, ")");
    proof {
        assert(t@ =~= start + ("("@ + inner@ + ")"@));
    }
}

/// An attribute as it is written out: ` @name`, with its arguments where
/// it has any.
pub open spec fn attr_text(a: FieldAttributeView) -> Seq<char> {
    " @"@ + a.name + match a.args {
        Some(args) => args_text(args),
        None => Seq::empty(),
    }
}

/// The attributes from the `k`-th on, written out one after the other.
pub open spec fn attrs_text(attrs: Seq<FieldAttributeView>, k: int) -> Seq<char>
    decreases attrs.len() - k,
{
    if k < 0 || k >= attrs.len() {
        Seq::empty()
    } else {
        attr_text(attrs[k]) + attrs_text(attrs, k + 1)
    }
}

fn say_attrs(t: &mut Vec<char>, attrs: &Vec<FieldAttribute>)
    ensures
        final(t)@ == old(t)@ + attrs_text(attrs.deep_view(), 0),
{
    let ghost av = attrs.deep_view();
    let mut k: usize = 0;
    while k < attrs.len()
        invariant
            k <= attrs@.len(),
            av == attrs.deep_view(),
            t@ + attrs_text(av, k as int) == old(t)@ + attrs_text(av, 0),
        decreases attrs.len() - k,
    {
        let a = &attrs[k];
        let ghost start = t@;
        proof {
            assert(av[k as int] == a.deep_view());
        }
        say(t, " @");
        say(t, a.name.as_str());
        match &a.args {
            Some(args) => {
                say_args(t, args);
            },
            None => {},
        }
        proof {
            assert(t@ =~= start + attr_text(av[k as int]));
            assert(t@ + attrs_text(av, k + 1) =~= start + (attr_text(av[k as int]) + attrs_text(
                av,
                k + 1,
            )));
        }
        k += 1;
    }
    proof {
        assert(t@ + Seq::<char>::empty() =~= t@);
    }
}

/// A parameter of a type as it is written out.
pub open spec fn param_text(p: ParamView) -> Seq<char> {
    match p {
        ParamView::String(s) => s,
        ParamView::Number(n) => n,
    }
}

/// The parameters as texts.
pub open spec fn param_texts(params: Seq<ParamView>) -> Seq<Seq<char>> {
    Seq::new(params.len(), |i: int| param_text(params[i]))
}

fn say_params(t: &mut Vec<char>, params: &Vec<ParamValue>)
    ensures
        final(t)@ == old(t)@ + ("("@ + join(param_texts(params.deep_view()), ", "@) + ")"@),
{
    let ghost start = t@;
    let ghost all = param_texts(params.deep_view());
    let mut inner: Vec<char> = Vec::new();
    let mut k: usize = 0;
    proof {
        assert(all.take(0) =~= Seq::empty());
    }
    while k < params.len()
        invariant
            k <= params@.len(),
            all == param_texts(params.deep_view()),
            inner@ == join(all.take(k as int), ", "@),
        decreases params.len() - k,
    {
        let ghost before = all.take(k as int);
        let ghost after = all.take(k + 1);
        let ghost now = inner@;
        proof {
            assert(params.deep_view()[k as int] == params@[k as int].deep_view());
            assert(after.drop_last() =~= before);
        }
        if k > 0 {
            say(&mut inner, ", ");
        }
        match &params[k] {
            ParamValue::String(s) => {
                say(&mut inner, s.as_str());
            },
            ParamValue::Number(n) => {
                say(&mut inner, n.text.as_str());
            },
        }
        proof {
            if k > 0 {
                assert(inner@ =~= now + ", "@ + after.last());
            } else {
                assert(inner@ =~= after.last());
            }
        }
        k += 1;
    }
    proof {
        assert(all.take(params@.len() as int) =~= all);
    }
    say(t, "(");
    push_all(t, &inner);
    say(t, ")");
    proof {
        assert(t@ =~= start + ("("@ + inner@ + ")"@));
    }
}

/// The type of a field as it is written out: `: type`, with the parameters
/// in parentheses.
pub open spec fn type_text(f: FieldNodeView) -> Seq<char> {
    match f.field_type {
        Some(t) => ": "@ + t + match f.params {
            Some(p) => "("@ + join(param_texts(p), ", "@) + ")"@,
            None => Seq::empty(),
        },
        None => Seq::empty(),
    }
}

/// The line of a field behind the indentation `prefix`: the list mark and
/// the name, the type, `?` and `[]`, the default value, the attributes, and
/// the description as a comment.
pub open spec fn field_text(f: FieldNodeView, prefix: Seq<char>) -> Seq<char> {
    prefix + "- "@ + f.name + type_text(f) + (if f.nullable {
        "?"@
    } else {
        Seq::empty()
    }) + (if f.array {
        "[]"@
    } else {
        Seq::empty()
    }) + (match f.default_value {
        Some(v) => " = "@ + v,
        None => Seq::empty(),
    }) + attrs_text(f.attributes, 0) + (match f.description {
        Some(d) => " # "@ + d,
        None => Seq::empty(),
    })
}

/// The lines of the fields from the `k`-th on, each followed by the lines
/// of the fields below it, which are indented by two spaces more.
pub open spec fn fields_lines(fields: Seq<FieldNodeView>, k: int, prefix: Seq<char>) -> Seq<
    Seq<char>,
>
    decreases fields, fields.len() - k,
{
    if k < 0 || k >= fields.len() {
        Seq::empty()
    } else {
        seq![field_text(fields[k], prefix)] + (match fields[k].fields {
            Some(sub) => fields_lines(sub, 0, prefix + "  "@),
            None => Seq::empty(),
        }) + fields_lines(fields, k + 1, prefix)
    }
}

fn field_line(f: &FieldNode, prefix: &Vec<char>) -> (r: String)
    ensures
        r@ == field_text(field_view(f), prefix@),
{
    let ghost fv = field_view(f);
    let mut t: Vec<char> = Vec::new();
    push_all(&mut t, prefix);
    say(&mut t, "- ");
    say(&mut t, f.name.as_str());
    let ghost head = t@;
    proof {
        assert(head =~= prefix@ + "- "@ + fv.name);
    }
    match &f.field_type {
        Some(ft) => {
            say(&mut t, ": ");
            say(&mut t, ft.as_str());
            match &f.params {
                Some(p) => {
                    say_params(&mut t, p);
                },
                None => {},
            }
        },
        None => {},
    }
    let ghost typed = t@;
    proof {
        assert(typed =~= head + type_text(fv));
    }
    if f.nullable {
        say(&mut t, "?");
    }
    let ghost a1 = t@;
    if f.array {
        say(&mut t, "[]");
    }
    let ghost a2 = t@;
    match &f.default_value {
        Some(v) => {
            say(&mut t, " = ");
            say(&mut t, v.as_str());
        },
        None => {},
    }
    let ghost a3 = t@;
    say_attrs(&mut t, &f.attributes);
    let ghost a4 = t@;
    match &f.description {
        Some(d) => {
            say(&mut t, " # ");
            say(&mut t, d.as_str());
        },
        None => {},
    }
    proof {
        assert(a1 =~= typed + (if fv.nullable {
            "?"@
        } else {
            Seq::empty()
        }));
        assert(a2 =~= a1 + (if fv.array {
            "[]"@
        } else {
            Seq::empty()
        }));
        assert(a3 =~= a2 + (match fv.default_value {
            Some(v) => " = "@ + v,
            None => Seq::empty(),
        }));
        assert(a4 =~= a3 + attrs_text(fv.attributes, 0));
        assert(t@ =~= a4 + (match fv.description {
            Some(d) => " # "@ + d,
            None => Seq::empty(),
        }));
    }
    from_chars(&t)
}

fn add_line(lines: &mut Vec<String>, line: String)
    ensures
        final(lines).deep_view() == old(lines).deep_view().push(line@),
{
    let ghost before = lines.deep_view();
    lines.push(line);
    proof {
        assert(lines.deep_view() =~= before.push(line@));
    }
}

/// Writes out fields behind the indentation `prefix`, and the fields below
/// them two spaces deeper.
pub fn format_fields(lines: &mut Vec<String>, fields: &Vec<FieldNode>, prefix: &Vec<char>)
    ensures
        final(lines).deep_view() == old(lines).deep_view() + fields_lines(
            fields.deep_view(),
            0,
            prefix@,
        ),
    decreases fields,
{
    let ghost fv = fields.deep_view();
    let mut k: usize = 0;
    while k < fields.len()
        invariant
            k <= fields@.len(),
            fv == fields.deep_view(),
            lines.deep_view() + fields_lines(fv, k as int, prefix@) == old(lines).deep_view()
                + fields_lines(fv, 0, prefix@),
        decreases fields.len() - k,
    {
        let f = &fields[k];
        let ghost start = lines.deep_view();
        proof {
            assert(fv[k as int] == field_view(f));
        }
        add_line(lines, field_line(f, prefix));
        let ghost mid = lines.deep_view();
        match &f.fields {
            Some(sub) => {
                proof {
                    lemma_field_view_fields(f);
                }
                let mut deeper: Vec<char> = Vec::new();
                push_all(&mut deeper, prefix);
                say(&mut deeper, "  ");
                proof {
                    assert(deeper@ =~= prefix@ + "  "@);
                }
                format_fields(lines, sub, &deeper);
            },
            None => {
                proof {
                    assert(mid + Seq::<Seq<char>>::empty() =~= mid);
                }
            },
        }
        proof {
            let own = seq![field_text(fv[k as int], prefix@)];
            let below = match fv[k as int].fields {
                Some(sub) => fields_lines(sub, 0, prefix@ + "  "@),
                None => Seq::empty(),
            };
            let rest = fields_lines(fv, k + 1, prefix@);
            assert(mid =~= start + own);
            assert(lines.deep_view() =~= start + own + below);
            assert(lines.deep_view() + rest =~= start + (own + below + rest));
        }
        k += 1;
    }
    proof {
        assert(lines.deep_view() + Seq::<Seq<char>>::empty() =~= lines.deep_view());
    }
}

/// The lines below the heading of a model: its description as a quote, then
/// its fields.
pub open spec fn body_lines(m: ModelNodeView) -> Seq<Seq<char>> {
    (match m.description {
        Some(d) => seq!["> "@ + d],
        None => Seq::empty(),
    }) + fields_lines(m.fields, 0, Seq::empty())
}

/// Writes out what stands below the heading of a model.
pub fn format_model_body(lines: &mut Vec<String>, model: &ModelNode)
    ensures
        final(lines).deep_view() == old(lines).deep_view() + body_lines(model.deep_view()),
{
    let ghost start = lines.deep_view();
    match &model.description {
        Some(d) => {
            let mut t: Vec<char> = Vec::new();
            say(&mut t, "> ");
            say(&mut t, d.as_str());
            proof {
                assert(t@ =~= "> "@ + d@);
            }
            add_line(lines, from_chars(&t));
        },
        None => {},
    }
    let ghost mid = lines.deep_view();
    let prefix: Vec<char> = Vec::new();
    format_fields(lines, &model.fields, &prefix);
    proof {
        let quote = match model.deep_view().description {
            Some(d) => seq!["> "@ + d],
            None => Seq::<Seq<char>>::empty(),
        };
        assert(mid =~= start + quote);
        assert(prefix@ =~= Seq::<char>::empty());
        assert(lines.deep_view() =~= start + (quote + fields_lines(
            model.deep_view().fields,
            0,
            Seq::empty(),
        )));
    }
}

/// The heading of a model: its name, its parents after a colon, and its attributes.
pub open spec fn model_heading(m: ModelNodeView) -> Seq<char> {
    "## "@ + m.name + (if m.inherits.len() > 0 {
        " : "@ + join(m.inherits, ", "@)
    } else {
        Seq::empty()
    }) + attrs_text(m.attributes, 0)
}

fn join_texts(list: &Vec<String>, sep: &str) -> (r: Vec<char>)
    ensures
        r@ == join(list.deep_view(), sep@),
{
    let ghost all = list.deep_view();
    let mut out: Vec<char> = Vec::new();
    let mut k: usize = 0;
    proof {
        assert(all.take(0) =~= Seq::empty());
    }
    while k < list.len()
        invariant
            k <= list@.len(),
            all == list.deep_view(),
            out@ == join(all.take(k as int), sep@),
        decreases list.len() - k,
    {
        let ghost before = all.take(k as int);
        let ghost after = all.take(k + 1);
        let ghost now = out@;
        proof {
            assert(all[k as int] == list@[k as int]@);
            assert(after.drop_last() =~= before);
            assert(after.last() == list@[k as int]@);
        }
        if k > 0 {
            say(&mut out, sep);
        }
        say(&mut out, list[k].as_str());
        proof {
            if k > 0 {
                assert(out@ =~= now + sep@ + list@[k as int]@);
            } else {
                assert(out@ =~= list@[k as int]@);
            }
        }
        k += 1;
    }
    proof {
        assert(all.take(list@.len() as int) =~= all);
    }
    out
}

/// Writes out a model: its heading and what stands below it.
pub fn format_model(lines: &mut Vec<String>, model: &ModelNode)
    ensures
        final(lines).deep_view() == old(lines).deep_view() + (seq![
            model_heading(model.deep_view()),
        ] + body_lines(model.deep_view())),
{
    let ghost start = lines.deep_view();
    let ghost mv = model.deep_view();
    let mut t: Vec<char> = Vec::new();
    say(&mut t, "## ");
    say(&mut t, model.name.as_str());
    if model.inherits.len() > 0 {
        say(&mut t, " : ");
        push_all(&mut t, &join_texts(&model.inherits, ", "));
    }
    let ghost head = t@;
    proof {
        assert(head =~= "## "@ + mv.name + (if mv.inherits.len() > 0 {
            " : "@ + join(mv.inherits, ", "@)
        } else {
            Seq::empty()
        }));
    }
    say_attrs(&mut t, &model.attributes);
    add_line(lines, from_chars(&t));
    let ghost mid = lines.deep_view();
    format_model_body(lines, model);
    proof {
        assert(mid =~= start + seq![model_heading(mv)]);
        assert(lines.deep_view() =~= start + (seq![model_heading(mv)] + body_lines(mv)));
    }
}

/// The line of an enum value: the list mark, the name, and the description
/// in double quotes.
pub open spec fn value_text(v: EnumValueView) -> Seq<char> {
    "- "@ + v.name + match v.description {
        Some(d) => " \""@ + d + "\""@,
        None => Seq::empty(),
    }
}

/// The lines of the values of an enum.
pub open spec fn value_lines(values: Seq<EnumValueView>) -> Seq<Seq<char>> {
    Seq::new(values.len(), |i: int| value_text(values[i]))
}

/// The lines of an enum: its heading, its description as a quote, its values.
pub open spec fn enum_lines(e: EnumNodeView) -> Seq<Seq<char>> {
    seq!["## "@ + e.name + " ::enum"@] + (match e.description {
        Some(d) => seq!["> "@ + d],
        None => Seq::empty(),
    }) + value_lines(e.values)
}

/// Writes out an enum.
pub fn format_enum(lines: &mut Vec<String>, e: &EnumNode)
    ensures
        final(lines).deep_view() == old(lines).deep_view() + enum_lines(e.deep_view()),
{
    let ghost start = lines.deep_view();
    let ghost ev = e.deep_view();
    let mut t: Vec<char> = Vec::new();
    say(&mut t, "## ");
    say(&mut t, e.name.as_str());
    say(&mut t, " ::enum");
    proof {
        assert(t@ =~= "## "@ + ev.name + " ::enum"@);
    }
    add_line(lines, from_chars(&t));
    match &e.description {
        Some(d) => {
            let mut q: Vec<char> = Vec::new();
            say(&mut q, "> ");
            say(&mut q, d.as_str());
            proof {
                assert(q@ =~= "> "@ + d@);
            }
            add_line(lines, from_chars(&q));
        },
        None => {},
    }
    let ghost mid = lines.deep_view();
    let ghost all = value_lines(ev.values);
    proof {
        assert(mid =~= start + (seq!["## "@ + ev.name + " ::enum"@] + (match ev.description {
            Some(d) => seq!["> "@ + d],
            None => Seq::empty(),
        })));
        assert(all.take(0) =~= Seq::empty());
        assert(mid + all.take(0) =~= mid);
    }
    let mut k: usize = 0;
    while k < e.values.len()
        invariant
            k <= e.values@.len(),
            ev == e.deep_view(),
            all == value_lines(ev.values),
            lines.deep_view() == mid + all.take(k as int),
        decreases e.values.len() - k,
    {
        let v = &e.values[k];
        proof {
            assert(ev.values[k as int] == v.deep_view());
        }
        let mut t: Vec<char> = Vec::new();
        say(&mut t, "- ");
        say(&mut t, v.name.as_str());
        match &v.description {
            Some(d) => {
                say(&mut t, " \"");
                say(&mut t, d.as_str());
                say(&mut t, "\"");
            },
            None => {},
        }
        proof {
            assert(t@ =~= value_text(ev.values[k as int]));
            assert(all.take(k + 1) =~= all.take(k as int).push(all[k as int]));
        }
        add_line(lines, from_chars(&t));
        proof {
            assert(lines.deep_view() =~= mid + all.take(k + 1));
        }
        k += 1;
    }
    proof {
        assert(all.take(e.values@.len() as int) =~= all);
        assert(lines.deep_view() =~= start + enum_lines(ev));
    }
}

/// The lines of the models from the `i`-th on, an empty line after each.
pub open spec fn models_lines(list: Seq<ModelNodeView>, i: int) -> Seq<Seq<char>>
    decreases list.len() - i,
{
    if i < 0 || i >= list.len() {
        Seq::empty()
    } else {
        seq![model_heading(list[i])] + body_lines(list[i]) + seq![Seq::<char>::empty()]
            + models_lines(list, i + 1)
    }
}

/// The lines of the enums from the `i`-th on, an empty line after each.
pub open spec fn enums_lines(list: Seq<EnumNodeView>, i: int) -> Seq<Seq<char>>
    decreases list.len() - i,
{
    if i < 0 || i >= list.len() {
        Seq::empty()
    } else {
        enum_lines(list[i]) + seq![Seq::<char>::empty()] + enums_lines(list, i + 1)
    }
}

/// The lines of the interfaces or views from the `i`-th on: for each a
/// heading with the indicator `what`, its body, and an empty line.
pub open spec fn marked_lines(list: Seq<ModelNodeView>, i: int, what: Seq<char>) -> Seq<Seq<char>>
    decreases list.len() - i,
{
    if i < 0 || i >= list.len() {
        Seq::empty()
    } else {
        seq!["## "@ + list[i].name + what] + body_lines(list[i]) + seq![Seq::<char>::empty()]
            + marked_lines(list, i + 1, what)
    }
}

/// The lines without the empty ones at the end.
pub open spec fn without_empty_end(lines: Seq<Seq<char>>) -> Seq<Seq<char>>
    decreases lines.len(),
{
    if lines.len() > 0 && lines.last().len() == 0 {
        without_empty_end(lines.drop_last())
    } else {
        lines
    }
}

/// All the lines of a tree: the namespace, the models, the enums, the
/// interfaces and the views.
pub open spec fn tree_lines(ast: M3lAstView) -> Seq<Seq<char>> {
    (match ast.project.name {
        Some(n) => seq!["# Namespace: "@ + n, Seq::<char>::empty()],
        None => Seq::empty(),
    }) + models_lines(ast.models, 0) + enums_lines(ast.enums, 0) + marked_lines(
        ast.interfaces,
        0,
        " ::interface"@,
    ) + marked_lines(ast.views, 0, " ::view"@)
}

/// A tree as source text in standard form: the lines of the tree, without
/// empty lines at the end, joined by line feeds.
pub open spec fn formatted(ast: M3lAstView) -> Seq<char> {
    join(without_empty_end(tree_lines(ast)), seq!['\n'])
}

fn add_empty(lines: &mut Vec<String>)
    ensures
        final(lines).deep_view() == old(lines).deep_view() + seq![Seq::<char>::empty()],
{
    let ghost before = lines.deep_view();
    lines.push(String::new());
    proof {
        assert(lines.deep_view() =~= before + seq![Seq::<char>::empty()]);
    }
}

fn add_models(lines: &mut Vec<String>, list: &Vec<ModelNode>)
    ensures
        final(lines).deep_view() == old(lines).deep_view() + models_lines(list.deep_view(), 0),
{
    let ghost lv = list.deep_view();
    let mut i: usize = 0;
    while i < list.len()
        invariant
            i <= list@.len(),
            lv == list.deep_view(),
            lines.deep_view() + models_lines(lv, i as int) == old(lines).deep_view()
                + models_lines(lv, 0),
        decreases list.len() - i,
    {
        let ghost start = lines.deep_view();
        proof {
            assert(lv[i as int] == list@[i as int].deep_view());
        }
        format_model(lines, &list[i]);
        add_empty(lines);
        proof {
            let own = seq![model_heading(lv[i as int])] + body_lines(lv[i as int]) + seq![
                Seq::<char>::empty(),
            ];
            assert(lines.deep_view() =~= start + own);
            assert(lines.deep_view() + models_lines(lv, i + 1) =~= start + (own + models_lines(
                lv,
                i + 1,
            )));
        }
        i += 1;
    }
    proof {
        assert(lines.deep_view() + Seq::<Seq<char>>::empty() =~= lines.deep_view());
    }
}

fn add_enums(lines: &mut Vec<String>, list: &Vec<EnumNode>)
    ensures
        final(lines).deep_view() == old(lines).deep_view() + enums_lines(list.deep_view(), 0),
{
    let ghost lv = list.deep_view();
    let mut i: usize = 0;
    while i < list.len()
        invariant
            i <= list@.len(),
            lv == list.deep_view(),
            lines.deep_view() + enums_lines(lv, i as int) == old(lines).deep_view() + enums_lines(
                lv,
                0,
            ),
        decreases list.len() - i,
    {
        let ghost start = lines.deep_view();
        proof {
            assert(lv[i as int] == list@[i as int].deep_view());
        }
        format_enum(lines, &list[i]);
        add_empty(lines);
        proof {
            let own = enum_lines(lv[i as int]) + seq![Seq::<char>::empty()];
            assert(lines.deep_view() =~= start + own);
            assert(lines.deep_view() + enums_lines(lv, i + 1) =~= start + (own + enums_lines(
                lv,
                i + 1,
            )));
        }
        i += 1;
    }
    proof {
        assert(lines.deep_view() + Seq::<Seq<char>>::empty() =~= lines.deep_view());
    }
}

fn add_marked(lines: &mut Vec<String>, list: &Vec<ModelNode>, what: &str)
    ensures
        final(lines).deep_view() == old(lines).deep_view() + marked_lines(
            list.deep_view(),
            0,
            what@,
        ),
{
    let ghost lv = list.deep_view();
    let mut i: usize = 0;
    while i < list.len()
        invariant
            i <= list@.len(),
            lv == list.deep_view(),
            lines.deep_view() + marked_lines(lv, i as int, what@) == old(lines).deep_view()
                + marked_lines(lv, 0, what@),
        decreases list.len() - i,
    {
        let ghost start = lines.deep_view();
        proof {
            assert(lv[i as int] == list@[i as int].deep_view());
        }
        let mut t: Vec<char> = Vec::new();
        say(&mut t, "## ");
        say(&mut t, list[i].name.as_str());
        say(&mut t, what);
        proof {
            assert(t@ =~= "## "@ + lv[i as int].name + what@);
        }
        add_line(lines, from_chars(&t));
        format_model_body(lines, &list[i]);
        add_empty(lines);
        proof {
            let own = seq!["## "@ + lv[i as int].name + what@] + body_lines(lv[i as int]) + seq![
                Seq::<char>::empty(),
            ];
            assert(lines.deep_view() =~= start + own);
            assert(lines.deep_view() + marked_lines(lv, i + 1, what@) =~= start + (own
                + marked_lines(lv, i + 1, what@)));
        }
        i += 1;
    }
    proof {
        assert(lines.deep_view() + Seq::<Seq<char>>::empty() =~= lines.deep_view());
    }
}

/// Writes a tree out as source text in standard form.
pub fn format_ast(ast: &M3lAst) -> (r: String)
    ensures
        r@ == formatted(ast.deep_view()),
{
    let mut lines: Vec<String> = Vec::new();
    proof {
        assert(lines.deep_view() =~= Seq::empty());
    }
    match &ast.project.name {
        Some(n) => {
            let mut t: Vec<char> = Vec::new();
            say(&mut t, "# Namespace: ");
            say(&mut t, n.as_str());
            proof {
                assert(t@ =~= "# Namespace: "@ + n@);
            }
            add_line(&mut lines, from_chars(&t));
            add_empty(&mut lines);
        },
        None => {},
    }
    proof {
        assert(lines.deep_view() =~= match ast.deep_view().project.name {
            Some(n) => seq!["# Namespace: "@ + n, Seq::<char>::empty()],
            None => Seq::empty(),
        });
    }
    add_models(&mut lines, &ast.models);
    add_enums(&mut lines, &ast.enums);
    add_marked(&mut lines, &ast.interfaces, " ::interface");
    add_marked(&mut lines, &ast.views, " ::view");
    let ghost all = lines.deep_view();
    proof {
        assert(all == tree_lines(ast.deep_view()));
    }
    let mut n = lines.len();
    proof {
        assert(all.take(n as int) =~= all);
    }
    while n > 0 && lines[n - 1].as_str().unicode_len() == 0
        invariant
            n <= lines@.len(),
            all == lines.deep_view(),
            without_empty_end(all.take(n as int)) == without_empty_end(all),
        decreases n,
    {
        proof {
            assert(all.take(n as int).last() == lines@[n - 1]@);
            assert(all.take(n as int).drop_last() =~= all.take(n - 1));
        }
        n -= 1;
    }
    proof {
        assert(all.take(lines@.len() as int) =~= all);
        if n > 0 {
            assert(all.take(n as int).last() == lines@[n - 1]@);
        }
    }
    lines.truncate(n);
    proof {
        assert(lines.deep_view() =~= all.take(n as int));
        reveal_strlit("\n");
        assert("\n"@ =~= seq!['\n']);
    }
    from_chars(&join_texts(&lines, "\n"))
}

/// Builds the tree of the source files that were read at `input_path` and
/// writes it out in standard form. No files at all are an error.
pub fn run_format(files: &[M3lFile], input_path: &str, project: Option<ProjectInfo>) -> (r: Result<
    String,
    String,
>)
    ensures
        match r {
            Ok(text) => files@.len() > 0 && text@ == formatted(
                resolved(parsed_files(files.deep_view()), project.deep_view()),
            ),
            Err(e) => files@.len() == 0 && e@ == no_files_error(input_path@),
        },
{
    match build_ast(files, input_path, project) {
        Ok(ast) => Ok(format_ast(&ast)),
        Err(e) => Err(e),
    }
}

} // verus!
