//! The graph of a tree: which element inherits from, refers to or has a
//! field of which other, rendered for Mermaid or for Graphviz.

use vstd::prelude::*;
use crate::field_node::first_text;
use crate::order::{before, insert_text, inserted, text_before};
use crate::report::{say, say_number};
use crate::rules::last_of;
use crate::text::{decimal, find_char, find_from, from_chars, join, str_eq, substring, to_chars};
use crate::types::{
    field_view, lemma_field_view_fields, AttrArgValue, EnumNode, EnumNodeView, FieldAttributeView,
    FieldNode, FieldNodeView, M3lAst, M3lAstView, ModelNode, ModelNodeView,
};

verus! {

/// An edge of the graph: from one element to another, and of what kind.
pub struct Edge {
    pub source: String,
    pub target: String,
    pub relation: String,
}

/// The mathematical value of an [`Edge`].
pub struct EdgeView {
    pub source: Seq<char>,
    pub target: Seq<char>,
    pub relation: Seq<char>,
}

impl DeepView for Edge {
    type V = EdgeView;

    open spec fn deep_view(&self) -> EdgeView {
        EdgeView { source: self.source@, target: self.target@, relation: self.relation@ }
    }
}

/// The simple name of a type: what stands behind the last point.
pub open spec fn simple_name(t: Seq<char>) -> Seq<char> {
    let dot = last_of(t, '.', t.len() as int);
    if 0 <= dot < t.len() {
        t.subrange(dot + 1, t.len() as int)
    } else {
        t
    }
}

/// The simple name of a type, `User` for `Auth.User`.
pub fn resolve_type_name(type_str: &str) -> (r: String)
    ensures
        r@ == simple_name(type_str@),
{
    let v = to_chars(type_str);
    let n = v.len();
    let mut i: usize = n;
    while i > 0
        invariant
            i <= n == v@.len(),
            v@ == type_str@,
            last_of(v@, '.', i as int) == last_of(v@, '.', n as int),
        decreases i,
    {
        if v[i - 1] == '.' {
            return substring(&v, i, n);
        }
        i -= 1;
    }
    String::from_str(type_str)
}

/// What stands before the first point of a text.
pub open spec fn first_part(t: Seq<char>) -> Seq<char> {
    let dot = find_from(t, '.', 0);
    if 0 <= dot <= t.len() {
        t.subrange(0, dot)
    } else {
        t
    }
}

/// Whether `a` comes before `b`: by source, then by target, then by relation.
pub open spec fn edge_before(a: EdgeView, b: EdgeView) -> bool {
    before(a.source, b.source) || (a.source == b.source && (before(a.target, b.target) || (
    a.target == b.target && before(a.relation, b.relation))))
}

/// The edges with `x` put in at its place, unless it is there already.
pub open spec fn edge_inserted(list: Seq<EdgeView>, x: EdgeView, from: int) -> Seq<EdgeView>
    decreases list.len() - from,
{
    if from < 0 || from >= list.len() {
        list.push(x)
    } else if edge_before(list[from], x) {
        edge_inserted(list, x, from + 1)
    } else if list[from] == x {
        list
    } else {
        list.insert(from, x)
    }
}

fn is_edge_before(a: &Edge, b: &Edge) -> (r: bool)
    ensures
        r == edge_before(a.deep_view(), b.deep_view()),
{
    if text_before(a.source.as_str(), b.source.as_str()) {
        return true;
    }
    if !str_eq(a.source.as_str(), b.source.as_str()) {
        return false;
    }
    if text_before(a.target.as_str(), b.target.as_str()) {
        return true;
    }
    if !str_eq(a.target.as_str(), b.target.as_str()) {
        return false;
    }
    text_before(a.relation.as_str(), b.relation.as_str())
}

fn same_edge(a: &Edge, b: &Edge) -> (r: bool)
    ensures
        r == (a.deep_view() == b.deep_view()),
{
    str_eq(a.source.as_str(), b.source.as_str()) && str_eq(a.target.as_str(), b.target.as_str())
        && str_eq(a.relation.as_str(), b.relation.as_str())
}

fn insert_edge(list: &mut Vec<Edge>, x: Edge)
    ensures
        final(list).deep_view() == edge_inserted(old(list).deep_view(), x.deep_view(), 0),
{
    let ghost before_view = list.deep_view();
    let mut i: usize = 0;
    while i < list.len()
        invariant
            i <= list@.len(),
            list.deep_view() == before_view,
            before_view == old(list).deep_view(),
            edge_inserted(before_view, x.deep_view(), i as int) == edge_inserted(
                before_view,
                x.deep_view(),
                0,
            ),
        decreases list.len() - i,
    {
        proof {
            assert(before_view[i as int] == list@[i as int].deep_view());
        }
        if is_edge_before(&list[i], &x) {
            i += 1;
        } else if same_edge(&list[i], &x) {
            return ;
        } else {
            list.insert(i, x);
            proof {
                assert(list.deep_view() =~= before_view.insert(i as int, x.deep_view()));
            }
            return ;
        }
    }
    list.push(x);
    proof {
        assert(list.deep_view() =~= before_view.push(x.deep_view()));
    }
}

/// The edges with one from `source` to `target` put in, where `target` is
/// one of the names `defined` and not `source` itself.
pub open spec fn with_edge(
    edges: Seq<EdgeView>,
    defined: Seq<Seq<char>>,
    source: Seq<char>,
    target: Seq<char>,
    relation: Seq<char>,
    to_other: bool,
) -> Seq<EdgeView> {
    if defined.contains(target) && (!to_other || target != source) {
        edge_inserted(
            edges,
            EdgeView { source: source, target: target, relation: relation },
            0,
        )
    } else {
        edges
    }
}

fn has_name(defined: &Vec<String>, name: &str) -> (r: bool)
    ensures
        r == defined.deep_view().contains(name@),
{
    let mut i: usize = 0;
    while i < defined.len()
        invariant
            i <= defined@.len(),
            forall|j: int| 0 <= j < i ==> defined.deep_view()[j] != name@,
        decreases defined.len() - i,
    {
        proof {
            assert(defined.deep_view()[i as int] == defined@[i as int]@);
        }
        if str_eq(defined[i].as_str(), name) {
            return true;
        }
        i += 1;
    }
    false
}

fn add_edge(
    edges: &mut Vec<Edge>,
    defined: &Vec<String>,
    source: &str,
    target: &str,
    relation: &str,
    to_other: bool,
)
    ensures
        final(edges).deep_view() == with_edge(
            old(edges).deep_view(),
            defined.deep_view(),
            source@,
            target@,
            relation@,
            to_other,
        ),
{
    if has_name(defined, target) && (!to_other || !str_eq(target, source)) {
        insert_edge(
            edges,
            Edge {
                source: String::from_str(source),
                target: String::from_str(target),
                relation: String::from_str(relation),
            },
        );
    }
}

/// The edges with those of the attributes of `f` from the `k`-th on: each
/// `@reference` and `@fk` whose first argument is a text points to the
/// element named before the first point of that text.
pub open spec fn attr_edges(
    edges: Seq<EdgeView>,
    defined: Seq<Seq<char>>,
    model: Seq<char>,
    attrs: Seq<FieldAttributeView>,
    k: int,
) -> Seq<EdgeView>
    decreases attrs.len() - k,
{
    if k < 0 || k >= attrs.len() {
        edges
    } else {
        let a = attrs[k];
        if (a.name == "reference"@ || a.name == "fk"@) && first_text(a) is Some {
            attr_edges(
                with_edge(edges, defined, model, first_part(first_text(a)->0), a.name, true),
                defined,
                model,
                attrs,
                k + 1,
            )
        } else {
            attr_edges(edges, defined, model, attrs, k + 1)
        }
    }
}

/// The edges with those of the fields from the `k`-th on and of the fields
/// below them: one to the type of a field, and those of its attributes.
pub open spec fn field_edges(
    edges: Seq<EdgeView>,
    defined: Seq<Seq<char>>,
    model: Seq<char>,
    fields: Seq<FieldNodeView>,
    k: int,
) -> Seq<EdgeView>
    decreases fields, fields.len() - k,
{
    if k < 0 || k >= fields.len() {
        edges
    } else {
        let f = fields[k];
        let typed = match f.field_type {
            Some(t) => with_edge(edges, defined, model, simple_name(t), "type_ref"@, true),
            None => edges,
        };
        let referred = attr_edges(typed, defined, model, f.attributes, 0);
        let below = match f.fields {
            Some(sub) => field_edges(referred, defined, model, sub, 0),
            None => referred,
        };
        field_edges(below, defined, model, fields, k + 1)
    }
}

/// Collects the edges of fields, and of the fields below them.
pub fn collect_field_edges(
    model_name: &str,
    fields: &Vec<FieldNode>,
    defined: &Vec<String>,
    edges: &mut Vec<Edge>,
)
    ensures
        final(edges).deep_view() == field_edges(
            old(edges).deep_view(),
            defined.deep_view(),
            model_name@,
            fields.deep_view(),
            0,
        ),
    decreases fields,
{
    let ghost fv = fields.deep_view();
    let ghost dv = defined.deep_view();
    let mut k: usize = 0;
    while k < fields.len()
        invariant
            k <= fields@.len(),
            fv == fields.deep_view(),
            dv == defined.deep_view(),
            field_edges(edges.deep_view(), dv, model_name@, fv, k as int) == field_edges(
                old(edges).deep_view(),
                dv,
                model_name@,
                fv,
                0,
            ),
        decreases fields.len() - k,
    {
        let f = &fields[k];
        proof {
            assert(fv[k as int] == field_view(f));
        }
        match &f.field_type {
            Some(t) => {
                let name = resolve_type_name(t.as_str());
                add_edge(edges, defined, model_name, name.as_str(), "type_ref", true);
            },
            None => {},
        }
        let ghost typed = edges.deep_view();
        let ghost av = f.attributes.deep_view();
        let mut j: usize = 0;
        while j < f.attributes.len()
            invariant
                j <= f.attributes@.len(),
                av == f.attributes.deep_view(),
                dv == defined.deep_view(),
                attr_edges(edges.deep_view(), dv, model_name@, av, j as int) == attr_edges(
                    typed,
                    dv,
                    model_name@,
                    av,
                    0,
                ),
            decreases f.attributes.len() - j,
        {
            let a = &f.attributes[j];
            proof {
                assert(av[j as int] == a.deep_view());
            }
            if str_eq(a.name.as_str(), "reference") || str_eq(a.name.as_str(), "fk") {
                match &a.args {
                    Some(args) => {
                        if args.len() > 0 {
                            proof {
                                assert(a.deep_view().args->0[0] == args@[0].deep_view());
                            }
                            match &args[0] {
                                AttrArgValue::String(target) => {
                                    let v = to_chars(target.as_str());
                                    let dot = find_char(&v, '.', 0);
                                    let part = substring(&v, 0, dot);
                                    add_edge(
                                        edges,
                                        defined,
                                        model_name,
                                        part.as_str(),
                                        a.name.as_str(),
                                        true,
                                    );
                                },
                                _ => {},
                            }
                        }
                    },
                    None => {},
                }
            }
            j += 1;
        }
        match &f.fields {
            Some(sub) => {
                proof {
                    lemma_field_view_fields(f);
                }
                collect_field_edges(model_name, sub, defined, edges);
            },
            None => {},
        }
        k += 1;
    }
}

/// The edges with those of the parents from the `k`-th on that are defined.
pub open spec fn parent_edges(
    edges: Seq<EdgeView>,
    defined: Seq<Seq<char>>,
    model: Seq<char>,
    parents: Seq<Seq<char>>,
    k: int,
) -> Seq<EdgeView>
    decreases parents.len() - k,
{
    if k < 0 || k >= parents.len() {
        edges
    } else {
        parent_edges(
            with_edge(edges, defined, model, parents[k], "inherits"@, false),
            defined,
            model,
            parents,
            k + 1,
        )
    }
}

/// The edges with those of the models from the `i`-th on.
pub open spec fn model_edges(
    edges: Seq<EdgeView>,
    defined: Seq<Seq<char>>,
    list: Seq<ModelNodeView>,
    i: int,
) -> Seq<EdgeView>
    decreases list.len() - i,
{
    if i < 0 || i >= list.len() {
        edges
    } else {
        model_edges(
            field_edges(
                parent_edges(edges, defined, list[i].name, list[i].inherits, 0),
                defined,
                list[i].name,
                list[i].fields,
                0,
            ),
            defined,
            list,
            i + 1,
        )
    }
}

fn collect_model_edges(edges: &mut Vec<Edge>, defined: &Vec<String>, list: &Vec<ModelNode>)
    ensures
        final(edges).deep_view() == model_edges(
            old(edges).deep_view(),
            defined.deep_view(),
            list.deep_view(),
            0,
        ),
{
    let ghost lv = list.deep_view();
    let ghost dv = defined.deep_view();
    let mut i: usize = 0;
    while i < list.len()
        invariant
            i <= list@.len(),
            lv == list.deep_view(),
            dv == defined.deep_view(),
            model_edges(edges.deep_view(), dv, lv, i as int) == model_edges(
                old(edges).deep_view(),
                dv,
                lv,
                0,
            ),
        decreases list.len() - i,
    {
        let m = &list[i];
        proof {
            assert(lv[i as int] == m.deep_view());
        }
        let ghost start = edges.deep_view();
        let ghost pv = m.inherits.deep_view();
        let mut k: usize = 0;
        while k < m.inherits.len()
            invariant
                k <= m.inherits@.len(),
                pv == m.inherits.deep_view(),
                dv == defined.deep_view(),
                parent_edges(edges.deep_view(), dv, m.name@, pv, k as int) == parent_edges(
                    start,
                    dv,
                    m.name@,
                    pv,
                    0,
                ),
            decreases m.inherits.len() - k,
        {
            proof {
                assert(pv[k as int] == m.inherits@[k as int]@);
            }
            add_edge(edges, defined, m.name.as_str(), m.inherits[k].as_str(), "inherits", false);
            k += 1;
        }
        collect_field_edges(m.name.as_str(), &m.fields, defined, edges);
        i += 1;
    }
}

/// The names of the models of a list put into `acc`, each at its place.
pub open spec fn with_model_names(acc: Seq<Seq<char>>, list: Seq<ModelNodeView>, i: int) -> Seq<
    Seq<char>,
>
    decreases list.len() - i,
{
    if i < 0 || i >= list.len() {
        acc
    } else {
        with_model_names(inserted(acc, list[i].name, 0), list, i + 1)
    }
}

/// The names of the enums of a list put into `acc`, each at its place.
pub open spec fn with_enum_names(acc: Seq<Seq<char>>, list: Seq<EnumNodeView>, i: int) -> Seq<
    Seq<char>,
>
    decreases list.len() - i,
{
    if i < 0 || i >= list.len() {
        acc
    } else {
        with_enum_names(inserted(acc, list[i].name, 0), list, i + 1)
    }
}

/// The names that a tree defines, in order and each once.
pub open spec fn defined_names(ast: M3lAstView) -> Seq<Seq<char>> {
    with_enum_names(
        with_model_names(
            with_model_names(with_model_names(Seq::empty(), ast.models, 0), ast.interfaces, 0),
            ast.views,
            0,
        ),
        ast.enums,
        0,
    )
}

/// The edges of a tree, in order and each once: those of the models, of
/// the interfaces and of the views.
pub open spec fn tree_edges(ast: M3lAstView) -> Seq<EdgeView> {
    let d = defined_names(ast);
    model_edges(
        model_edges(model_edges(Seq::empty(), d, ast.models, 0), d, ast.interfaces, 0),
        d,
        ast.views,
        0,
    )
}

fn add_model_names(acc: &mut Vec<String>, list: &Vec<ModelNode>)
    ensures
        final(acc).deep_view() == with_model_names(old(acc).deep_view(), list.deep_view(), 0),
{
    let mut i: usize = 0;
    while i < list.len()
        invariant
            i <= list@.len(),
            with_model_names(acc.deep_view(), list.deep_view(), i as int) == with_model_names(
                old(acc).deep_view(),
                list.deep_view(),
                0,
            ),
        decreases list.len() - i,
    {
        proof {
            assert(list.deep_view()[i as int].name == list@[i as int].name@);
        }
        insert_text(acc, list[i].name.clone());
        i += 1;
    }
}

fn add_enum_names(acc: &mut Vec<String>, list: &Vec<EnumNode>)
    ensures
        final(acc).deep_view() == with_enum_names(old(acc).deep_view(), list.deep_view(), 0),
{
    let mut i: usize = 0;
    while i < list.len()
        invariant
            i <= list@.len(),
            with_enum_names(acc.deep_view(), list.deep_view(), i as int) == with_enum_names(
                old(acc).deep_view(),
                list.deep_view(),
                0,
            ),
        decreases list.len() - i,
    {
        proof {
            assert(list.deep_view()[i as int].name == list@[i as int].name@);
        }
        insert_text(acc, list[i].name.clone());
        i += 1;
    }
}

/// Whether an edge starts or ends at `name`.
pub open spec fn touches(edges: Seq<EdgeView>, name: Seq<char>, from: int) -> bool
    decreases edges.len() - from,
{
    if from < 0 || from >= edges.len() {
        false
    } else if edges[from].source == name || edges[from].target == name {
        true
    } else {
        touches(edges, name, from + 1)
    }
}

fn is_touched(edges: &Vec<Edge>, name: &str) -> (r: bool)
    ensures
        r == touches(edges.deep_view(), name@, 0),
{
    let mut i: usize = 0;
    while i < edges.len()
        invariant
            i <= edges@.len(),
            touches(edges.deep_view(), name@, i as int) == touches(edges.deep_view(), name@, 0),
        decreases edges.len() - i,
    {
        proof {
            assert(edges.deep_view()[i as int] == edges@[i as int].deep_view());
        }
        if str_eq(edges[i].source.as_str(), name) || str_eq(edges[i].target.as_str(), name) {
            return true;
        }
        i += 1;
    }
    false
}

/// The label of a kind of edge in a Mermaid graph.
pub open spec fn edge_label(relation: Seq<char>) -> Seq<char> {
    if relation == "type_ref"@ {
        "has"@
    } else if relation == "reference"@ {
        "ref"@
    } else {
        relation
    }
}

/// The lines for the names from the `i`-th on that no edge touches.
pub open spec fn lone_lines(names: Seq<Seq<char>>, edges: Seq<EdgeView>, i: int) -> Seq<Seq<char>>
    decreases names.len() - i,
{
    if i < 0 || i >= names.len() {
        Seq::empty()
    } else if touches(edges, names[i], 0) {
        lone_lines(names, edges, i + 1)
    } else {
        seq!["    "@ + names[i]] + lone_lines(names, edges, i + 1)
    }
}

/// The line of an edge in a Mermaid graph.
pub open spec fn mermaid_edge(e: EdgeView) -> Seq<char> {
    "    "@ + e.source + " -->|"@ + edge_label(e.relation) + "| "@ + e.target
}

/// The lines of the edges in a Mermaid graph.
pub open spec fn mermaid_edges(edges: Seq<EdgeView>) -> Seq<Seq<char>> {
    Seq::new(edges.len(), |i: int| mermaid_edge(edges[i]))
}

/// A Mermaid graph: the elements that no edge touches, the edges with
/// their labels, and a count of both.
pub open spec fn mermaid(names: Seq<Seq<char>>, edges: Seq<EdgeView>) -> Seq<char> {
    join(
        seq!["graph LR"@] + lone_lines(names, edges, 0) + mermaid_edges(edges) + seq![
            "%% "@ + decimal(names.len()) + " nodes, "@ + decimal(edges.len()) + " edges"@,
        ],
        seq!['\n'],
    )
}

fn push_line(lines: &mut Vec<Vec<char>>, line: Vec<char>)
    ensures
        crate::text::texts(final(lines)@) == crate::text::texts(old(lines)@).push(line@),
{
    let ghost before = crate::text::texts(lines@);
    lines.push(line);
    proof {
        assert(crate::text::texts(lines@) =~= before.push(line@));
    }
}

fn join_lines(lines: &Vec<Vec<char>>) -> (r: String)
    ensures
        r@ == join(crate::text::texts(lines@), seq!['\n']),
{
    let ghost all = crate::text::texts(lines@);
    let mut out: Vec<char> = Vec::new();
    let mut k: usize = 0;
    proof {
        assert(all.take(0) =~= Seq::empty());
    }
    while k < lines.len()
        invariant
            k <= lines@.len(),
            all == crate::text::texts(lines@),
            out@ == join(all.take(k as int), seq!['\n']),
        decreases lines.len() - k,
    {
        let ghost before = all.take(k as int);
        let ghost after = all.take(k + 1);
        let ghost now = out@;
        proof {
            assert(after.drop_last() =~= before);
            assert(after.last() == lines@[k as int]@);
        }
        if k > 0 {
            out.push('\n');
        }
        crate::text::push_all(&mut out, &lines[k]);
        proof {
            if k > 0 {
                assert(out@ =~= now + seq!['\n'] + lines@[k as int]@);
            } else {
                assert(out@ =~= lines@[k as int]@);
            }
        }
        k += 1;
    }
    proof {
        assert(all.take(lines@.len() as int) =~= all);
    }
    from_chars(&out)
}

/// Renders the graph for Mermaid.
pub fn render_mermaid(names: &Vec<String>, edges: &Vec<Edge>) -> (r: String)
    ensures
        r@ == mermaid(names.deep_view(), edges.deep_view()),
{
    let ghost nv = names.deep_view();
    let ghost ev = edges.deep_view();
    let mut lines: Vec<Vec<char>> = Vec::new();
    push_line(&mut lines, to_chars("graph LR"));
    let ghost head = crate::text::texts(lines@);
    proof {
        assert(head =~= seq!["graph LR"@]);
    }
    let mut i: usize = 0;
    while i < names.len()
        invariant
            i <= names@.len(),
            nv == names.deep_view(),
            ev == edges.deep_view(),
            crate::text::texts(lines@) + lone_lines(nv, ev, i as int) == head + lone_lines(
                nv,
                ev,
                0,
            ),
        decreases names.len() - i,
    {
        let ghost start = crate::text::texts(lines@);
        proof {
            assert(nv[i as int] == names@[i as int]@);
        }
        if !is_touched(edges, names[i].as_str()) {
            let mut t: Vec<char> = Vec::new();
            say(&mut t, "    ");
            say(&mut t, names[i].as_str());
            proof {
                assert(t@ =~= "    "@ + nv[i as int]);
            }
            push_line(&mut lines, t);
            proof {
                assert(crate::text::texts(lines@) + lone_lines(nv, ev, i + 1) =~= start + (seq![
                    "    "@ + nv[i as int],
                ] + lone_lines(nv, ev, i + 1)));
            }
        }
        i += 1;
    }
    let ghost mid = crate::text::texts(lines@);
    proof {
        assert(mid + Seq::<Seq<char>>::empty() =~= mid);
        assert(mid == head + lone_lines(nv, ev, 0));
    }
    let ghost all = mermaid_edges(ev);
    let mut k: usize = 0;
    proof {
        assert(mid + all.take(0) =~= mid);
    }
    while k < edges.len()
        invariant
            k <= edges@.len(),
            ev == edges.deep_view(),
            all == mermaid_edges(ev),
            crate::text::texts(lines@) == mid + all.take(k as int),
        decreases edges.len() - k,
    {
        let e = &edges[k];
        proof {
            assert(ev[k as int] == e.deep_view());
        }
        let mut t: Vec<char> = Vec::new();
        say(&mut t, "    ");
        say(&mut t, e.source.as_str());
        say(&mut t, " -->|");
        if str_eq(e.relation.as_str(), "type_ref") {
            say(&mut t, "has");
        } else if str_eq(e.relation.as_str(), "reference") {
            say(&mut t, "ref");
        } else {
            say(&mut t, e.relation.as_str());
        }
        say(&mut t, "| ");
        say(&mut t, e.target.as_str());
        proof {
            assert(t@ =~= mermaid_edge(ev[k as int]));
            assert(all.take(k + 1) =~= all.take(k as int).push(all[k as int]));
        }
        push_line(&mut lines, t);
        proof {
            assert(crate::text::texts(lines@) =~= mid + all.take(k + 1));
        }
        k += 1;
    }
    proof {
        assert(all.take(edges@.len() as int) =~= all);
    }
    let mut t: Vec<char> = Vec::new();
    say(&mut t, "%% ");
    say_number(&mut t, names.len());
    say(&mut t, " nodes, ");
    say_number(&mut t, edges.len());
    say(&mut t, " edges");
    proof {
        assert(t@ =~= "%% "@ + decimal(nv.len()) + " nodes, "@ + decimal(ev.len()) + " edges"@);
    }
    push_line(&mut lines, t);
    proof {
        assert(crate::text::texts(lines@) =~= seq!["graph LR"@] + lone_lines(nv, ev, 0)
            + mermaid_edges(ev) + seq![
            "%% "@ + decimal(nv.len()) + " nodes, "@ + decimal(ev.len()) + " edges"@,
        ]);
    }
    join_lines(&lines)
}

/// The style of a kind of edge in a Graphviz graph.
pub open spec fn edge_style(relation: Seq<char>) -> Seq<char> {
    if relation == "inherits"@ {
        "style=dashed, color=blue"@
    } else if relation == "type_ref"@ {
        "color=black"@
    } else if relation == "reference"@ {
        "color=red"@
    } else if relation == "fk"@ {
        "color=green"@
    } else {
        "color=gray"@
    }
}

/// The lines of the elements in a Graphviz graph.
pub open spec fn dot_nodes(names: Seq<Seq<char>>) -> Seq<Seq<char>> {
    Seq::new(names.len(), |i: int| "    \""@ + names[i] + "\";"@)
}

/// The line of an edge in a Graphviz graph.
pub open spec fn dot_edge(e: EdgeView) -> Seq<char> {
    "    \""@ + e.source + "\" -> \""@ + e.target + "\" [label=\""@ + e.relation + "\", "@
        + edge_style(e.relation) + "];"@
}

/// The lines of the edges in a Graphviz graph.
pub open spec fn dot_edges(edges: Seq<EdgeView>) -> Seq<Seq<char>> {
    Seq::new(edges.len(), |i: int| dot_edge(edges[i]))
}

/// A Graphviz graph: the elements as boxes, and the edges with a label and
/// a style each.
pub open spec fn dot(names: Seq<Seq<char>>, edges: Seq<EdgeView>) -> Seq<char> {
    join(
        seq![
            "digraph M3L {"@,
            "    rankdir=LR;"@,
            "    node [shape=box, style=filled, fillcolor=lightyellow];"@,
        ] + dot_nodes(names) + dot_edges(edges) + seq!["}"@],
        seq!['\n'],
    )
}

/// Renders the graph for Graphviz.
pub fn render_dot(names: &Vec<String>, edges: &Vec<Edge>) -> (r: String)
    ensures
        r@ == dot(names.deep_view(), edges.deep_view()),
{
    let ghost nv = names.deep_view();
    let ghost ev = edges.deep_view();
    let mut lines: Vec<Vec<char>> = Vec::new();
    push_line(&mut lines, to_chars("digraph M3L {"));
    push_line(&mut lines, to_chars("    rankdir=LR;"));
    push_line(&mut lines, to_chars("    node [shape=box, style=filled, fillcolor=lightyellow];"));
    let ghost head = crate::text::texts(lines@);
    proof {
        assert(head =~= seq![
            "digraph M3L {"@,
            "    rankdir=LR;"@,
            "    node [shape=box, style=filled, fillcolor=lightyellow];"@,
        ]);
    }
    let ghost nodes = dot_nodes(nv);
    let mut i: usize = 0;
    proof {
        assert(head + nodes.take(0) =~= head);
    }
    while i < names.len()
        invariant
            i <= names@.len(),
            nv == names.deep_view(),
            nodes == dot_nodes(nv),
            crate::text::texts(lines@) == head + nodes.take(i as int),
        decreases names.len() - i,
    {
        proof {
            assert(nv[i as int] == names@[i as int]@);
        }
        let mut t: Vec<char> = Vec::new();
        say(&mut t, "    \"");
        say(&mut t, names[i].as_str());
        say(&mut t, "\";");
        proof {
            assert(t@ =~= nodes[i as int]);
            assert(nodes.take(i + 1) =~= nodes.take(i as int).push(nodes[i as int]));
        }
        push_line(&mut lines, t);
        proof {
            assert(crate::text::texts(lines@) =~= head + nodes.take(i + 1));
        }
        i += 1;
    }
    let ghost mid = crate::text::texts(lines@);
    let ghost all = dot_edges(ev);
    proof {
        assert(nodes.take(names@.len() as int) =~= nodes);
        assert(mid + all.take(0) =~= mid);
    }
    let mut k: usize = 0;
    while k < edges.len()
        invariant
            k <= edges@.len(),
            ev == edges.deep_view(),
            all == dot_edges(ev),
            crate::text::texts(lines@) == mid + all.take(k as int),
        decreases edges.len() - k,
    {
        let e = &edges[k];
        proof {
            assert(ev[k as int] == e.deep_view());
        }
        let rel = e.relation.as_str();
        let mut t: Vec<char> = Vec::new();
        say(&mut t, "    \"");
        say(&mut t, e.source.as_str());
        say(&mut t, "\" -> \"");
        say(&mut t, e.target.as_str());
        say(&mut t, "\" [label=\"");
        say(&mut t, rel);
        say(&mut t, "\", ");
        if str_eq(rel, "inherits") {
            say(&mut t, "style=dashed, color=blue");
        } else if str_eq(rel, "type_ref") {
            say(&mut t, "color=black");
        } else if str_eq(rel, "reference") {
            say(&mut t, "color=red");
        } else if str_eq(rel, "fk") {
            say(&mut t, "color=green");
        } else {
            say(&mut t, "color=gray");
        }
        say(&mut t, "];");
        proof {
            assert(t@ =~= dot_edge(ev[k as int]));
            assert(all.take(k + 1) =~= all.take(k as int).push(all[k as int]));
        }
        push_line(&mut lines, t);
        proof {
            assert(crate::text::texts(lines@) =~= mid + all.take(k + 1));
        }
        k += 1;
    }
    proof {
        assert(all.take(edges@.len() as int) =~= all);
    }
    push_line(&mut lines, to_chars("}"));
    proof {
        assert(crate::text::texts(lines@) =~= head + dot_nodes(nv) + dot_edges(ev) + seq!["}"@]);
    }
    join_lines(&lines)
}

/// The graph of a tree as text: for Graphviz where `format` is `dot`, else
/// for Mermaid.
pub open spec fn analyzed(ast: M3lAstView, format: Seq<char>) -> Seq<char> {
    if format == "dot"@ {
        dot(defined_names(ast), tree_edges(ast))
    } else {
        mermaid(defined_names(ast), tree_edges(ast))
    }
}

/// Renders the graph of the dependencies of a tree.
pub fn run_analyze(ast: &M3lAst, format: &str) -> (r: String)
    ensures
        r@ == analyzed(ast.deep_view(), format@),
{
    let mut names: Vec<String> = Vec::new();
    proof {
        assert(names.deep_view() =~= Seq::empty());
    }
    add_model_names(&mut names, &ast.models);
    add_model_names(&mut names, &ast.interfaces);
    add_model_names(&mut names, &ast.views);
    add_enum_names(&mut names, &ast.enums);
    let mut edges: Vec<Edge> = Vec::new();
    proof {
        assert(edges.deep_view() =~= Seq::empty());
    }
    collect_model_edges(&mut edges, &names, &ast.models);
    collect_model_edges(&mut edges, &names, &ast.interfaces);
    collect_model_edges(&mut edges, &names, &ast.views);
    if str_eq(format, "dot") {
        render_dot(&names, &edges)
    } else {
        render_mermaid(&names, &edges)
    }
}

} // verus!
