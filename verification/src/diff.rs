//! The differences between two trees: which models, fields and enums were
//! added, removed or changed.

use vstd::prelude::*;
use crate::graph::with_model_names;
use crate::order::{in_order, insert_text, inserted, order_texts};
use crate::report::{say, say_number};
use crate::resolver::model_index;
use crate::rules::find_last_model;
use crate::text::{decimal, from_chars, join, str_eq};
use crate::types::{
    field_view, EnumNode, EnumNodeView, FieldNode, FieldNodeView, M3lAst, M3lAstView, ModelNode,
    ModelNodeView,
};
use crate::validator::models_and_views;

verus! {

/// The last of the first `upto` fields with the name `name`.
pub open spec fn last_field(fields: Seq<FieldNodeView>, name: Seq<char>, upto: int) -> Option<int>
    decreases upto,
{
    if upto <= 0 || upto > fields.len() {
        None
    } else if fields[upto - 1].name == name {
        Some(upto - 1)
    } else {
        last_field(fields, name, upto - 1)
    }
}

fn find_last_field(fields: &Vec<FieldNode>, name: &str) -> (r: Option<usize>)
    ensures
        crate::scan::position(r) == last_field(fields.deep_view(), name@, fields@.len() as int),
        r matches Some(i) ==> i < fields@.len(),
{
    let mut i: usize = fields.len();
    while i > 0
        invariant
            i <= fields@.len(),
            last_field(fields.deep_view(), name@, i as int) == last_field(
                fields.deep_view(),
                name@,
                fields@.len() as int,
            ),
        decreases i,
    {
        proof {
            assert(fields.deep_view()[i - 1].name == fields@[i - 1].name@);
        }
        if str_eq(fields[i - 1].name.as_str(), name) {
            return Some(i - 1);
        }
        i -= 1;
    }
    None
}

/// The names of the fields put into `acc`, each at its place.
pub open spec fn with_field_names(acc: Seq<Seq<char>>, fields: Seq<FieldNodeView>, i: int) -> Seq<
    Seq<char>,
>
    decreases fields.len() - i,
{
    if i < 0 || i >= fields.len() {
        acc
    } else {
        with_field_names(inserted(acc, fields[i].name, 0), fields, i + 1)
    }
}

fn field_names(fields: &Vec<FieldNode>) -> (r: Vec<String>)
    ensures
        r.deep_view() == with_field_names(Seq::empty(), fields.deep_view(), 0),
{
    let mut acc: Vec<String> = Vec::new();
    let mut i: usize = 0;
    proof {
        assert(acc.deep_view() =~= Seq::empty());
    }
    while i < fields.len()
        invariant
            i <= fields@.len(),
            with_field_names(acc.deep_view(), fields.deep_view(), i as int) == with_field_names(
                Seq::empty(),
                fields.deep_view(),
                0,
            ),
        decreases fields.len() - i,
    {
        proof {
            assert(fields.deep_view()[i as int].name == fields@[i as int].name@);
        }
        insert_text(&mut acc, fields[i].name.clone());
        i += 1;
    }
    acc
}

fn model_names(list: &Vec<ModelNode>) -> (r: Vec<String>)
    ensures
        r.deep_view() == with_model_names(Seq::empty(), list.deep_view(), 0),
{
    let mut acc: Vec<String> = Vec::new();
    let mut i: usize = 0;
    proof {
        assert(acc.deep_view() =~= Seq::empty());
    }
    while i < list.len()
        invariant
            i <= list@.len(),
            with_model_names(acc.deep_view(), list.deep_view(), i as int) == with_model_names(
                Seq::empty(),
                list.deep_view(),
                0,
            ),
        decreases list.len() - i,
    {
        proof {
            assert(list.deep_view()[i as int].name == list@[i as int].name@);
        }
        insert_text(&mut acc, list[i].name.clone());
        i += 1;
    }
    acc
}

/// A word for a truth value.
pub open spec fn truth(b: bool) -> Seq<char> {
    if b {
        "true"@
    } else {
        "false"@
    }
}

/// A type in a message, or `none`.
pub open spec fn type_or_none(t: Option<Seq<char>>) -> Seq<char> {
    match t {
        Some(x) => x,
        None => "none"@,
    }
}

/// What changed from the field `l` to the field `r`, of type, of being
/// nullable and of being an array.
pub open spec fn changes(l: FieldNodeView, r: FieldNodeView) -> Seq<Seq<char>> {
    (if l.field_type != r.field_type {
        seq![
            "type: "@ + type_or_none(l.field_type) + " \u{2192} "@ + type_or_none(r.field_type),
        ]
    } else {
        Seq::empty()
    }) + (if l.nullable != r.nullable {
        seq!["nullable: "@ + truth(l.nullable) + " \u{2192} "@ + truth(r.nullable)]
    } else {
        Seq::empty()
    }) + (if l.array != r.array {
        seq!["array: "@ + truth(l.array) + " \u{2192} "@ + truth(r.array)]
    } else {
        Seq::empty()
    })
}

/// The lines for the names from the `i`-th on that `other` does not hold
/// as the name of a field: `mark`, the model, a point and the name.
pub open spec fn field_only_lines(
    names: Seq<Seq<char>>,
    other: Seq<FieldNodeView>,
    model: Seq<char>,
    mark: Seq<char>,
    i: int,
) -> Seq<Seq<char>>
    decreases names.len() - i,
{
    if i < 0 || i >= names.len() {
        Seq::empty()
    } else if last_field(other, names[i], other.len() as int) is None {
        seq![mark + model + "."@ + names[i]] + field_only_lines(names, other, model, mark, i + 1)
    } else {
        field_only_lines(names, other, model, mark, i + 1)
    }
}

/// The lines for the fields, by their names from the `i`-th on, that both
/// models have and that changed.
pub open spec fn field_change_lines(
    names: Seq<Seq<char>>,
    l: Seq<FieldNodeView>,
    r: Seq<FieldNodeView>,
    model: Seq<char>,
    i: int,
) -> Seq<Seq<char>>
    decreases names.len() - i,
{
    if i < 0 || i >= names.len() {
        Seq::empty()
    } else {
        let a = last_field(l, names[i], l.len() as int);
        let b = last_field(r, names[i], r.len() as int);
        if a is Some && b is Some && 0 <= a->0 < l.len() && 0 <= b->0 < r.len() && changes(
            l[a->0],
            r[b->0],
        ).len() > 0 {
            seq![
                "~ "@ + model + "."@ + names[i] + ": "@ + join(changes(l[a->0], r[b->0]), ", "@),
            ] + field_change_lines(names, l, r, model, i + 1)
        } else {
            field_change_lines(names, l, r, model, i + 1)
        }
    }
}

/// The lines for the fields of a model that both trees have.
pub open spec fn model_diff(l: ModelNodeView, r: ModelNodeView) -> Seq<Seq<char>> {
    let left = with_field_names(Seq::empty(), l.fields, 0);
    let right = with_field_names(Seq::empty(), r.fields, 0);
    field_only_lines(right, l.fields, l.name, "+ "@, 0) + field_only_lines(
        left,
        r.fields,
        l.name,
        "- "@,
        0,
    ) + field_change_lines(left, l.fields, r.fields, l.name, 0)
}

fn add_text(lines: &mut Vec<String>, t: &Vec<char>)
    ensures
        final(lines).deep_view() == old(lines).deep_view().push(t@),
{
    let ghost before = lines.deep_view();
    lines.push(from_chars(t));
    proof {
        assert(lines.deep_view() =~= before.push(t@));
    }
}

fn only_fields(
    lines: &mut Vec<String>,
    names: &Vec<String>,
    other: &Vec<FieldNode>,
    model: &str,
    mark: &str,
)
    ensures
        final(lines).deep_view() == old(lines).deep_view() + field_only_lines(
            names.deep_view(),
            other.deep_view(),
            model@,
            mark@,
            0,
        ),
{
    let ghost nv = names.deep_view();
    let ghost ov = other.deep_view();
    let mut i: usize = 0;
    while i < names.len()
        invariant
            i <= names@.len(),
            nv == names.deep_view(),
            ov == other.deep_view(),
            lines.deep_view() + field_only_lines(nv, ov, model@, mark@, i as int) == old(
                lines,
            ).deep_view() + field_only_lines(nv, ov, model@, mark@, 0),
        decreases names.len() - i,
    {
        let ghost start = lines.deep_view();
        proof {
            assert(nv[i as int] == names@[i as int]@);
        }
        if find_last_field(other, names[i].as_str()).is_none() {
            let mut t: Vec<char> = Vec::new();
            say(&mut t, mark);
            say(&mut t, model);
            say(&mut t, ".");
            say(&mut t, names[i].as_str());
            proof {
                assert(t@ =~= mark@ + model@ + "."@ + nv[i as int]);
            }
            add_text(lines, &t);
            proof {
                assert(lines.deep_view() + field_only_lines(nv, ov, model@, mark@, i + 1) =~= start
                    + (seq![mark@ + model@ + "."@ + nv[i as int]] + field_only_lines(
                    nv,
                    ov,
                    model@,
                    mark@,
                    i + 1,
                )));
            }
        }
        i += 1;
    }
    proof {
        assert(lines.deep_view() + Seq::<Seq<char>>::empty() =~= lines.deep_view());
    }
}

fn word(b: bool) -> (r: &'static str)
    ensures
        r@ == truth(b),
{
    if b {
        "true"
    } else {
        "false"
    }
}

fn same_type(a: &Option<String>, b: &Option<String>) -> (r: bool)
    ensures
        r == (a.deep_view() == b.deep_view()),
{
    match (a, b) {
        (Some(x), Some(y)) => str_eq(x.as_str(), y.as_str()),
        (None, None) => true,
        _ => false,
    }
}

fn say_type(t: &mut Vec<char>, x: &Option<String>)
    ensures
        final(t)@ == old(t)@ + type_or_none(x.deep_view()),
{
    match x {
        Some(s) => {
            say(t, s.as_str());
        },
        None => {
            say(t, "none");
        },
    }
}

fn field_changes(l: &FieldNode, r: &FieldNode) -> (out: Vec<String>)
    ensures
        out.deep_view() == changes(field_view(l), field_view(r)),
{
    let mut out: Vec<String> = Vec::new();
    proof {
        assert(out.deep_view() =~= Seq::empty());
    }
    if !same_type(&l.field_type, &r.field_type) {
        let mut t: Vec<char> = Vec::new();
        say(&mut t, "type: ");
        say_type(&mut t, &l.field_type);
        say(&mut t, " \u{2192} ");
        say_type(&mut t, &r.field_type);
        proof {
            assert(t@ =~= "type: "@ + type_or_none(field_view(l).field_type) + " \u{2192} "@
                + type_or_none(field_view(r).field_type));
        }
        add_text(&mut out, &t);
    }
    let ghost a1 = out.deep_view();
    if l.nullable != r.nullable {
        let mut t: Vec<char> = Vec::new();
        say(&mut t, "nullable: ");
        say(&mut t, word(l.nullable));
        say(&mut t, " \u{2192} ");
        say(&mut t, word(r.nullable));
        proof {
            assert(t@ =~= "nullable: "@ + truth(l.nullable) + " \u{2192} "@ + truth(r.nullable));
        }
        add_text(&mut out, &t);
    }
    let ghost a2 = out.deep_view();
    if l.array != r.array {
        let mut t: Vec<char> = Vec::new();
        say(&mut t, "array: ");
        say(&mut t, word(l.array));
        say(&mut t, " \u{2192} ");
        say(&mut t, word(r.array));
        proof {
            assert(t@ =~= "array: "@ + truth(l.array) + " \u{2192} "@ + truth(r.array));
        }
        add_text(&mut out, &t);
    }
    proof {
        let lv = field_view(l);
        let rv = field_view(r);
        let c1 = if lv.field_type != rv.field_type {
            seq![
                "type: "@ + type_or_none(lv.field_type) + " \u{2192} "@ + type_or_none(
                    rv.field_type,
                ),
            ]
        } else {
            Seq::<Seq<char>>::empty()
        };
        let c2 = if lv.nullable != rv.nullable {
            seq!["nullable: "@ + truth(lv.nullable) + " \u{2192} "@ + truth(rv.nullable)]
        } else {
            Seq::<Seq<char>>::empty()
        };
        let c3 = if lv.array != rv.array {
            seq!["array: "@ + truth(lv.array) + " \u{2192} "@ + truth(rv.array)]
        } else {
            Seq::<Seq<char>>::empty()
        };
        assert(a1 =~= c1);
        assert(a2 =~= c1 + c2);
        assert(out.deep_view() =~= c1 + c2 + c3);
    }
    out
}

fn join_with(list: &Vec<String>, sep: &str) -> (r: Vec<char>)
    ensures
        r@ == join(list.deep_view(), sep@),
{
    let ghost all = list.deep_view();
    let mut out: Vec<char> = Vec::new();
    let mut k: usize = 0;
    proof {
        assert(all.take(0) =~= Seq::empty());
    }
    while k < list.len()
        invariant
            k <= list@.len(),
            all == list.deep_view(),
            out@ == join(all.take(k as int), sep@),
        decreases list.len() - k,
    {
        let ghost before = all.take(k as int);
        let ghost after = all.take(k + 1);
        let ghost now = out@;
        proof {
            assert(all[k as int] == list@[k as int]@);
            assert(after.drop_last() =~= before);
            assert(after.last() == list@[k as int]@);
        }
        if k > 0 {
            say(&mut out, sep);
        }
        say(&mut out, list[k].as_str());
        proof {
            if k > 0 {
                assert(out@ =~= now + sep@ + list@[k as int]@);
            } else {
                assert(out@ =~= list@[k as int]@);
            }
        }
        k += 1;
    }
    proof {
        assert(all.take(list@.len() as int) =~= all);
    }
    out
}

fn changed_fields(
    lines: &mut Vec<String>,
    names: &Vec<String>,
    l: &Vec<FieldNode>,
    r: &Vec<FieldNode>,
    model: &str,
)
    ensures
        final(lines).deep_view() == old(lines).deep_view() + field_change_lines(
            names.deep_view(),
            l.deep_view(),
            r.deep_view(),
            model@,
            0,
        ),
{
    let ghost nv = names.deep_view();
    let ghost lv = l.deep_view();
    let ghost rv = r.deep_view();
    let mut i: usize = 0;
    while i < names.len()
        invariant
            i <= names@.len(),
            nv == names.deep_view(),
            lv == l.deep_view(),
            rv == r.deep_view(),
            lines.deep_view() + field_change_lines(nv, lv, rv, model@, i as int) == old(
                lines,
            ).deep_view() + field_change_lines(nv, lv, rv, model@, 0),
        decreases names.len() - i,
    {
        let ghost start = lines.deep_view();
        proof {
            assert(nv[i as int] == names@[i as int]@);
        }
        match find_last_field(l, names[i].as_str()) {
            Some(a) => match find_last_field(r, names[i].as_str()) {
                Some(b) => {
                    proof {
                        assert(lv[a as int] == field_view(&l@[a as int]));
                        assert(rv[b as int] == field_view(&r@[b as int]));
                    }
                    let list = field_changes(&l[a], &r[b]);
                    if list.len() > 0 {
                        let mut t: Vec<char> = Vec::new();
                        say(&mut t, "~ ");
                        say(&mut t, model);
                        say(&mut t, ".");
                        say(&mut t, names[i].as_str());
                        say(&mut t, ": ");
                        crate::text::push_all(&mut t, &join_with(&list, ", "));
                        proof {
                            assert(t@ =~= "~ "@ + model@ + "."@ + nv[i as int] + ": "@ + join(
                                changes(lv[a as int], rv[b as int]),
                                ", "@,
                            ));
                        }
                        add_text(lines, &t);
                        proof {
                            assert(lines.deep_view() + field_change_lines(
                                nv,
                                lv,
                                rv,
                                model@,
                                i + 1,
                            ) =~= start + (seq![
                                "~ "@ + model@ + "."@ + nv[i as int] + ": "@ + join(
                                    changes(lv[a as int], rv[b as int]),
                                    ", "@,
                                ),
                            ] + field_change_lines(nv, lv, rv, model@, i + 1)));
                        }
                    }
                },
                None => {},
            },
            None => {},
        }
        i += 1;
    }
    proof {
        assert(lines.deep_view() + Seq::<Seq<char>>::empty() =~= lines.deep_view());
    }
}

fn diff_model(lines: &mut Vec<String>, l: &ModelNode, r: &ModelNode)
    ensures
        final(lines).deep_view() == old(lines).deep_view() + model_diff(
            l.deep_view(),
            r.deep_view(),
        ),
{
    let ghost start = lines.deep_view();
    let left = field_names(&l.fields);
    let right = field_names(&r.fields);
    only_fields(lines, &right, &l.fields, l.name.as_str(), "+ ");
    only_fields(lines, &left, &r.fields, l.name.as_str(), "- ");
    changed_fields(lines, &left, &l.fields, &r.fields, l.name.as_str());
    proof {
        assert(lines.deep_view() =~= start + model_diff(l.deep_view(), r.deep_view()));
    }
}

/// The lines for the names from the `i`-th on that `other` does not hold
/// as the name of a model: `mark` and the name.
pub open spec fn model_only_lines(
    names: Seq<Seq<char>>,
    other: Seq<ModelNodeView>,
    mark: Seq<char>,
    i: int,
) -> Seq<Seq<char>>
    decreases names.len() - i,
{
    if i < 0 || i >= names.len() {
        Seq::empty()
    } else if model_index(other, names[i], other.len() as int) is None {
        seq![mark + names[i]] + model_only_lines(names, other, mark, i + 1)
    } else {
        model_only_lines(names, other, mark, i + 1)
    }
}

/// The lines for the models, by their names from the `i`-th on, that both
/// trees have.
pub open spec fn models_diff(
    names: Seq<Seq<char>>,
    l: Seq<ModelNodeView>,
    r: Seq<ModelNodeView>,
    i: int,
) -> Seq<Seq<char>>
    decreases names.len() - i,
{
    if i < 0 || i >= names.len() {
        Seq::empty()
    } else {
        let a = model_index(l, names[i], l.len() as int);
        let b = model_index(r, names[i], r.len() as int);
        if a is Some && b is Some && 0 <= a->0 < l.len() && 0 <= b->0 < r.len() {
            model_diff(l[a->0], r[b->0]) + models_diff(names, l, r, i + 1)
        } else {
            models_diff(names, l, r, i + 1)
        }
    }
}

/// The names of the enums put into `acc`, each at its place.
pub open spec fn with_names_of_enums(acc: Seq<Seq<char>>, list: Seq<EnumNodeView>, i: int) -> Seq<
    Seq<char>,
>
    decreases list.len() - i,
{
    if i < 0 || i >= list.len() {
        acc
    } else {
        with_names_of_enums(inserted(acc, list[i].name, 0), list, i + 1)
    }
}

/// Whether one of the enums from `from` on has the name `name`.
pub open spec fn has_enum(list: Seq<EnumNodeView>, name: Seq<char>, from: int) -> bool
    decreases list.len() - from,
{
    if from < 0 || from >= list.len() {
        false
    } else if list[from].name == name {
        true
    } else {
        has_enum(list, name, from + 1)
    }
}

/// The lines for the names from the `i`-th on that are no names of `other`.
pub open spec fn enum_only_lines(
    names: Seq<Seq<char>>,
    other: Seq<EnumNodeView>,
    mark: Seq<char>,
    i: int,
) -> Seq<Seq<char>>
    decreases names.len() - i,
{
    if i < 0 || i >= names.len() {
        Seq::empty()
    } else if !has_enum(other, names[i], 0) {
        seq![mark + names[i]] + enum_only_lines(names, other, mark, i + 1)
    } else {
        enum_only_lines(names, other, mark, i + 1)
    }
}

/// All the differences between two trees, as they are found: models that
/// were added and removed, the fields of the models that both have, and
/// enums that were added and removed.
pub open spec fn difference_lines(left: M3lAstView, right: M3lAstView) -> Seq<Seq<char>> {
    let l = models_and_views(left);
    let r = models_and_views(right);
    let ln = with_model_names(Seq::empty(), l, 0);
    let rn = with_model_names(Seq::empty(), r, 0);
    model_only_lines(rn, l, "+ model "@, 0) + model_only_lines(ln, r, "- model "@, 0)
        + models_diff(ln, l, r, 0) + enum_only_lines(
        with_names_of_enums(Seq::empty(), right.enums, 0),
        left.enums,
        "+ enum "@,
        0,
    ) + enum_only_lines(
        with_names_of_enums(Seq::empty(), left.enums, 0),
        right.enums,
        "- enum "@,
        0,
    )
}

/// How many of the lines from the `i`-th on start with `c`.
pub open spec fn count_marked(lines: Seq<Seq<char>>, c: char, i: int) -> nat
    decreases lines.len() - i,
{
    if i < 0 || i >= lines.len() {
        0
    } else if lines[i].len() > 0 && lines[i][0] == c {
        1 + count_marked(lines, c, i + 1)
    } else {
        count_marked(lines, c, i + 1)
    }
}

/// The last line of a report of differences: how many lines say that
/// something was added, removed or changed.
pub open spec fn totals(lines: Seq<Seq<char>>) -> Seq<char> {
    "\n"@ + decimal(count_marked(lines, '+', 0)) + " added, "@ + decimal(
        count_marked(lines, '-', 0),
    ) + " removed, "@ + decimal(count_marked(lines, '~', 0)) + " modified"@
}

/// The report of the differences between two trees: the lines in order
/// and the totals, or a line that says that there are none.
pub open spec fn difference(left: M3lAstView, right: M3lAstView) -> Seq<char> {
    let lines = difference_lines(left, right);
    if lines.len() == 0 {
        "No differences found."@
    } else {
        join(in_order(lines).push(totals(in_order(lines))), seq!['\n'])
    }
}

proof fn lemma_count_marked(lines: Seq<Seq<char>>, c: char, i: int)
    requires
        0 <= i <= lines.len(),
    ensures
        count_marked(lines, c, i) <= lines.len() - i,
    decreases lines.len() - i,
{
    if i < lines.len() {
        lemma_count_marked(lines, c, i + 1);
    }
}

fn count_lines(lines: &Vec<String>, c: char) -> (r: usize)
    ensures
        r == count_marked(lines.deep_view(), c, 0),
{
    let n = lines.len();
    let mut count: usize = 0;
    let mut k: usize = n;
    while k > 0
        invariant
            k <= n == lines@.len(),
            count == count_marked(lines.deep_view(), c, k as int),
        decreases k,
    {
        proof {
            lemma_count_marked(lines.deep_view(), c, k as int);
        }
        k -= 1;
        proof {
            assert(lines.deep_view()[k as int] == lines@[k as int]@);
        }
        let s = lines[k].as_str();
        if s.unicode_len() > 0 && s.get_char(0) == c {
            count += 1;
        }
    }
    count
}

fn only_models(lines: &mut Vec<String>, names: &Vec<String>, other: &Vec<ModelNode>, mark: &str)
    ensures
        final(lines).deep_view() == old(lines).deep_view() + model_only_lines(
            names.deep_view(),
            other.deep_view(),
            mark@,
            0,
        ),
{
    let ghost nv = names.deep_view();
    let ghost ov = other.deep_view();
    let mut i: usize = 0;
    while i < names.len()
        invariant
            i <= names@.len(),
            nv == names.deep_view(),
            ov == other.deep_view(),
            lines.deep_view() + model_only_lines(nv, ov, mark@, i as int) == old(
                lines,
            ).deep_view() + model_only_lines(nv, ov, mark@, 0),
        decreases names.len() - i,
    {
        let ghost start = lines.deep_view();
        proof {
            assert(nv[i as int] == names@[i as int]@);
        }
        if find_last_model(other, names[i].as_str()).is_none() {
            let mut t: Vec<char> = Vec::new();
            say(&mut t, mark);
            say(&mut t, names[i].as_str());
            proof {
                assert(t@ =~= mark@ + nv[i as int]);
            }
            add_text(lines, &t);
            proof {
                assert(lines.deep_view() + model_only_lines(nv, ov, mark@, i + 1) =~= start + (
                    seq![mark@ + nv[i as int]] + model_only_lines(nv, ov, mark@, i + 1)));
            }
        }
        i += 1;
    }
    proof {
        assert(lines.deep_view() + Seq::<Seq<char>>::empty() =~= lines.deep_view());
    }
}

fn both_models(lines: &mut Vec<String>, names: &Vec<String>, l: &Vec<ModelNode>, r: &Vec<ModelNode>)
    ensures
        final(lines).deep_view() == old(lines).deep_view() + models_diff(
            names.deep_view(),
            l.deep_view(),
            r.deep_view(),
            0,
        ),
{
    let ghost nv = names.deep_view();
    let ghost lv = l.deep_view();
    let ghost rv = r.deep_view();
    let mut i: usize = 0;
    while i < names.len()
        invariant
            i <= names@.len(),
            nv == names.deep_view(),
            lv == l.deep_view(),
            rv == r.deep_view(),
            lines.deep_view() + models_diff(nv, lv, rv, i as int) == old(lines).deep_view()
                + models_diff(nv, lv, rv, 0),
        decreases names.len() - i,
    {
        let ghost start = lines.deep_view();
        proof {
            assert(nv[i as int] == names@[i as int]@);
        }
        match find_last_model(l, names[i].as_str()) {
            Some(a) => match find_last_model(r, names[i].as_str()) {
                Some(b) => {
                    proof {
                        assert(lv[a as int] == l@[a as int].deep_view());
                        assert(rv[b as int] == r@[b as int].deep_view());
                    }
                    diff_model(lines, &l[a], &r[b]);
                    proof {
                        assert(lines.deep_view() + models_diff(nv, lv, rv, i + 1) =~= start + (
                            model_diff(lv[a as int], rv[b as int]) + models_diff(
                            nv,
                            lv,
                            rv,
                            i + 1,
                        )));
                    }
                },
                None => {},
            },
            None => {},
        }
        i += 1;
    }
    proof {
        assert(lines.deep_view() + Seq::<Seq<char>>::empty() =~= lines.deep_view());
    }
}

fn enum_names(list: &Vec<EnumNode>) -> (r: Vec<String>)
    ensures
        r.deep_view() == with_names_of_enums(Seq::empty(), list.deep_view(), 0),
{
    let mut acc: Vec<String> = Vec::new();
    let mut i: usize = 0;
    proof {
        assert(acc.deep_view() =~= Seq::empty());
    }
    while i < list.len()
        invariant
            i <= list@.len(),
            with_names_of_enums(acc.deep_view(), list.deep_view(), i as int)
                == with_names_of_enums(Seq::empty(), list.deep_view(), 0),
        decreases list.len() - i,
    {
        proof {
            assert(list.deep_view()[i as int].name == list@[i as int].name@);
        }
        insert_text(&mut acc, list[i].name.clone());
        i += 1;
    }
    acc
}

fn is_enum(list: &Vec<EnumNode>, name: &str) -> (r: bool)
    ensures
        r == has_enum(list.deep_view(), name@, 0),
{
    let mut i: usize = 0;
    while i < list.len()
        invariant
            i <= list@.len(),
            has_enum(list.deep_view(), name@, i as int) == has_enum(list.deep_view(), name@, 0),
        decreases list.len() - i,
    {
        proof {
            assert(list.deep_view()[i as int].name == list@[i as int].name@);
        }
        if str_eq(list[i].name.as_str(), name) {
            return true;
        }
        i += 1;
    }
    false
}

fn only_enums(lines: &mut Vec<String>, names: &Vec<String>, other: &Vec<EnumNode>, mark: &str)
    ensures
        final(lines).deep_view() == old(lines).deep_view() + enum_only_lines(
            names.deep_view(),
            other.deep_view(),
            mark@,
            0,
        ),
{
    let ghost nv = names.deep_view();
    let ghost ov = other.deep_view();
    let mut i: usize = 0;
    while i < names.len()
        invariant
            i <= names@.len(),
            nv == names.deep_view(),
            ov == other.deep_view(),
            lines.deep_view() + enum_only_lines(nv, ov, mark@, i as int) == old(
                lines,
            ).deep_view() + enum_only_lines(nv, ov, mark@, 0),
        decreases names.len() - i,
    {
        let ghost start = lines.deep_view();
        proof {
            assert(nv[i as int] == names@[i as int]@);
        }
        if !is_enum(other, names[i].as_str()) {
            let mut t: Vec<char> = Vec::new();
            say(&mut t, mark);
            say(&mut t, names[i].as_str());
            proof {
                assert(t@ =~= mark@ + nv[i as int]);
            }
            add_text(lines, &t);
            proof {
                assert(lines.deep_view() + enum_only_lines(nv, ov, mark@, i + 1) =~= start + (
                    seq![mark@ + nv[i as int]] + enum_only_lines(nv, ov, mark@, i + 1)));
            }
        }
        i += 1;
    }
    proof {
        assert(lines.deep_view() + Seq::<Seq<char>>::empty() =~= lines.deep_view());
    }
}

fn all_of(ast: &M3lAst) -> (r: Vec<ModelNode>)
    ensures
        r.deep_view() == models_and_views(ast.deep_view()),
{
    let mut out = crate::types::clone_vec_model_node(&ast.models);
    let ghost first = out.deep_view();
    let mut more = crate::types::clone_vec_model_node(&ast.views);
    let ghost second = more.deep_view();
    out.append(&mut more);
    proof {
        assert(out.deep_view() =~= first + second);
    }
    out
}

/// Reports the differences between two trees.
pub fn run_diff(left: &M3lAst, right: &M3lAst) -> (r: String)
    ensures
        r@ == difference(left.deep_view(), right.deep_view()),
{
    let l = all_of(left);
    let r = all_of(right);
    let ln = model_names(&l);
    let rn = model_names(&r);
    let mut lines: Vec<String> = Vec::new();
    proof {
        assert(lines.deep_view() =~= Seq::empty());
    }
    only_models(&mut lines, &rn, &l, "+ model ");
    only_models(&mut lines, &ln, &r, "- model ");
    both_models(&mut lines, &ln, &l, &r);
    only_enums(&mut lines, &enum_names(&right.enums), &left.enums, "+ enum ");
    only_enums(&mut lines, &enum_names(&left.enums), &right.enums, "- enum ");
    proof {
        assert(lines.deep_view() =~= difference_lines(left.deep_view(), right.deep_view()));
    }
    if lines.len() == 0 {
        return String::from_str("No differences found.");
    }
    let mut sorted = order_texts(&lines);
    let added = count_lines(&sorted, '+');
    let removed = count_lines(&sorted, '-');
    let modified = count_lines(&sorted, '~');
    let mut t: Vec<char> = Vec::new();
    say(&mut t, "\n");
    say_number(&mut t, added);
    say(&mut t, " added, ");
    say_number(&mut t, removed);
    say(&mut t, " removed, ");
    say_number(&mut t, modified);
    say(&mut t, " modified");
    proof {
        assert(t@ =~= totals(sorted.deep_view()));
    }
    add_text(&mut sorted, &t);
    proof {
        reveal_strlit("\n");
        assert("\n"@ =~= seq!['\n']);
    }
    from_chars(&join_with(&sorted, "\n"))
}

} // verus!
