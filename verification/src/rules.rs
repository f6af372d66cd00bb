//! The rules that validation holds each field to, one by one: references of
//! rollups and lookups, known types, deprecated syntax, the arguments of
//! registered attributes, and the style rules of strict mode.

use vstd::prelude::*;
use crate::catalogs::{is_catalog_type, type_names};
use crate::field_node::{find_attr, has_attr};
use crate::number::{is_less, is_number, number_less};
use crate::report::{
    error_at, error_view, model_type_word, report, say, say_number, type_word, warning_at,
    warning_view,
};
use crate::resolver::{field_index, find_field, model_index};
use crate::text::{
    decimal, find_char, find_from, split, split_char, str_eq, substring, texts, to_chars,
};
use crate::types::{
    lemma_field_view_fields, FieldAttribute, FieldAttributeView,
    field_view, AttrArgValue, AttrArgView, AttributeRegistryEntry, AttributeRegistryEntryView,
    Diagnostic, DiagnosticView, FieldKind, FieldNode, FieldNodeView, ModelNode, ModelNodeView,
};

verus! {

/// Whether a field carries `@reference` or `@fk`.
pub open spec fn has_reference(f: FieldNodeView) -> bool {
    has_attr(f.attributes, "reference"@) || has_attr(f.attributes, "fk"@)
}

/// Whether a field carries `@reference` or `@fk`.
pub fn is_reference(f: &FieldNode) -> (r: bool)
    ensures
        r == has_reference(field_view(f)),
{
    find_attr(&f.attributes, "reference").is_some() || find_attr(&f.attributes, "fk").is_some()
}

/// What the rules look things up in: the models and views of the tree, the
/// names that are defined in it, and the registered attributes.
pub struct Context {
    pub all: Seq<ModelNodeView>,
    pub defined: Seq<Seq<char>>,
    pub registry: Seq<AttributeRegistryEntryView>,
}

/// The rules that are applied to one field at a time.
#[derive(Clone, Copy, PartialEq, Eq, Structural)]
pub enum FieldRule {
    Rollup,
    Lookup,
    Types,
    Deprecated,
    Registry,
    Strict,
}

/// What is wrong with a foreign key: it is not there, or it is there
/// without `@reference` or `@fk`.
pub open spec fn fault(missing: bool) -> Seq<char> {
    if missing {
        "does not exist"@
    } else {
        "has no @reference or @fk attribute"@
    }
}

/// What is wrong with a foreign key, as text.
pub fn fault_text(missing: bool) -> (r: &'static str)
    ensures
        r@ == fault(missing),
{
    if missing {
        "does not exist"
    } else {
        "has no @reference or @fk attribute"
    }
}

/// The error for a rollup whose foreign key is missing or is no reference.
pub open spec fn rollup_error(f: FieldNodeView, missing: bool) -> DiagnosticView {
    error_view(
        "M3L-E001"@,
        f.loc.file,
        f.loc.line,
        "@rollup on \""@ + f.name + "\" targets \""@ + f.rollup->0.target + "."@
            + f.rollup->0.fk + "\" which "@ + fault(missing),
    )
}

/// The field with the name `fk` of the model with the name `target`: its
/// place among the models and among the fields of that model, where both
/// are there.
pub open spec fn foreign_key(all: Seq<ModelNodeView>, target: Seq<char>, fk: Seq<char>) -> Option<
    (int, int),
> {
    match model_index(all, target, all.len() as int) {
        Some(t) => {
            let k = field_index(all[t].fields, fk, 0);
            if 0 <= t < all.len() && 0 <= k < all[t].fields.len() {
                Some((t, k))
            } else {
                None
            }
        },
        None => None,
    }
}

/// A rollup field must aggregate over a foreign key: the field that it
/// names must exist on its target and carry `@reference` or `@fk`. A
/// target that is no model or view of the tree, and a field that the
/// target does not have, are reported like a field without the attribute.
pub open spec fn rollup_diagnostics(all: Seq<ModelNodeView>, f: FieldNodeView) -> Seq<DiagnosticView> {
    if f.kind == FieldKind::Rollup && f.rollup is Some {
        match foreign_key(all, f.rollup->0.target, f.rollup->0.fk) {
            Some(at) => if has_reference(all[at.0].fields[at.1]) {
                Seq::empty()
            } else {
                seq![rollup_error(f, false)]
            },
            None => seq![rollup_error(f, true)],
        }
    } else {
        Seq::empty()
    }
}

/// The last model or view of the list with the name `name`.
pub fn find_last_model(list: &Vec<ModelNode>, name: &str) -> (r: Option<usize>)
    ensures
        crate::scan::position(r) == model_index(list.deep_view(), name@, list@.len() as int),
        r matches Some(i) ==> i < list@.len(),
{
    let mut i: usize = list.len();
    while i > 0
        invariant
            i <= list@.len(),
            model_index(list.deep_view(), name@, i as int) == model_index(
                list.deep_view(),
                name@,
                list@.len() as int,
            ),
        decreases i,
    {
        proof {
            assert(list.deep_view()[i - 1].name == list@[i - 1].name@);
        }
        if str_eq(list[i - 1].name.as_str(), name) {
            return Some(i - 1);
        }
        i -= 1;
    }
    None
}

/// Whether a model or view with the name `name` is in the list.
pub fn has_model(list: &Vec<ModelNode>, name: &str) -> (r: bool)
    ensures
        r == (model_index(list.deep_view(), name@, list@.len() as int) is Some),
{
    find_last_model(list, name).is_some()
}

fn is_foreign_key(all: &Vec<ModelNode>, target: &str, fk: &str) -> (r: Option<bool>)
    ensures
        match foreign_key(all.deep_view(), target@, fk@) {
            Some(at) => r == Some(has_reference(all.deep_view()[at.0].fields[at.1])),
            None => r is None,
        },
{
    match find_last_model(all, target) {
        Some(t) => {
            let model = &all[t];
            proof {
                assert(all.deep_view()[t as int] == model.deep_view());
            }
            let k = find_field(&model.fields, fk);
            if k < model.fields.len() {
                proof {
                    assert(model.deep_view().fields[k as int] == field_view(
                        &model.fields@[k as int],
                    ));
                }
                Some(is_reference(&model.fields[k]))
            } else {
                None
            }
        },
        None => None,
    }
}

/// Checks the reference of a rollup field.
pub fn validate_rollup_reference(all: &Vec<ModelNode>, f: &FieldNode, out: &mut Vec<Diagnostic>)
    ensures
        final(out).deep_view() == old(out).deep_view() + rollup_diagnostics(
            all.deep_view(),
            field_view(f),
        ),
{
    let ghost before = out.deep_view();
    proof {
        assert(before + Seq::<DiagnosticView>::empty() =~= before);
    }
    match f.kind {
        FieldKind::Rollup => {},
        _ => {
            return ;
        },
    }
    match &f.rollup {
        Some(r) => {
            let missing = match is_foreign_key(all, r.target.as_str(), r.fk.as_str()) {
                Some(true) => {
                    return ;
                },
                Some(false) => false,
                None => true,
            };
            let mut m: Vec<char> = Vec::new();
            say(&mut m, "@rollup on \"");
            say(&mut m, f.name.as_str());
            say(&mut m, "\" targets \"");
            say(&mut m, r.target.as_str());
            say(&mut m, ".");
            say(&mut m, r.fk.as_str());
            say(&mut m, "\" which ");
            say(&mut m, fault_text(missing));
            proof {
                assert(m@ =~= "@rollup on \""@ + f.name@ + "\" targets \""@ + r.target@ + "."@
                    + r.fk@ + "\" which "@ + fault(missing));
            }
            report(out, error_at("M3L-E001", f.loc.file.as_str(), f.loc.line, &m));
            proof {
                assert(out.deep_view() =~= before + seq![rollup_error(field_view(f), missing)]);
            }
        },
        None => {},
    }
}

/// The first segment of a lookup path that has two segments or more.
pub open spec fn lookup_key(path: Seq<char>) -> Option<Seq<char>> {
    let dot = find_from(path, '.', 0);
    if 0 <= dot < path.len() {
        Some(path.subrange(0, dot))
    } else {
        None
    }
}

/// The error for a lookup whose first segment is missing or is no
/// reference.
pub open spec fn lookup_error(f: FieldNodeView, key: Seq<char>, missing: bool) -> DiagnosticView {
    error_view(
        "M3L-E002"@,
        f.loc.file,
        f.loc.line,
        "@lookup on \""@ + f.name + "\" references FK \""@ + key + "\" which "@ + fault(missing),
    )
}

/// A lookup field must start at a foreign key: the first segment of a path
/// of two segments or more must name a field of the model that carries
/// `@reference` or `@fk`.
pub open spec fn lookup_diagnostics(m: ModelNodeView, f: FieldNodeView) -> Seq<DiagnosticView> {
    if f.kind == FieldKind::Lookup && f.lookup is Some {
        match lookup_key(f.lookup->0.path) {
            Some(key) => {
                let k = field_index(m.fields, key, 0);
                if 0 <= k < m.fields.len() {
                    if has_reference(m.fields[k]) {
                        Seq::empty()
                    } else {
                        seq![lookup_error(f, key, false)]
                    }
                } else {
                    seq![lookup_error(f, key, true)]
                }
            },
            None => Seq::empty(),
        }
    } else {
        Seq::empty()
    }
}

/// Checks the reference of a lookup field.
pub fn validate_lookup_reference(model: &ModelNode, f: &FieldNode, out: &mut Vec<Diagnostic>)
    ensures
        final(out).deep_view() == old(out).deep_view() + lookup_diagnostics(
            model.deep_view(),
            field_view(f),
        ),
{
    let ghost before = out.deep_view();
    proof {
        assert(before + Seq::<DiagnosticView>::empty() =~= before);
    }
    match f.kind {
        FieldKind::Lookup => {},
        _ => {
            return ;
        },
    }
    match &f.lookup {
        Some(l) => {
            let path = to_chars(l.path.as_str());
            let dot = find_char(&path, '.', 0);
            if dot < path.len() {
                let key = substring(&path, 0, dot);
                let k = find_field(&model.fields, key.as_str());
                let missing = if k < model.fields.len() {
                    proof {
                        assert(model.deep_view().fields[k as int] == field_view(
                            &model.fields@[k as int],
                        ));
                    }
                    if is_reference(&model.fields[k]) {
                        return ;
                    }
                    false
                } else {
                    true
                };
                let mut m: Vec<char> = Vec::new();
                say(&mut m, "@lookup on \"");
                say(&mut m, f.name.as_str());
                say(&mut m, "\" references FK \"");
                say(&mut m, key.as_str());
                say(&mut m, "\" which ");
                say(&mut m, fault_text(missing));
                proof {
                    assert(m@ =~= "@lookup on \""@ + f.name@ + "\" references FK \""@ + key@
                        + "\" which "@ + fault(missing));
                }
                report(out, error_at("M3L-E002", f.loc.file.as_str(), f.loc.line, &m));
                proof {
                    assert(out.deep_view() =~= before + seq![
                        lookup_error(field_view(f), key@, missing),
                    ]);
                }
            }
        },
        None => {},
    }
}

/// The position of the last `c` among the first `upto` characters, or -1.
pub open spec fn last_of(s: Seq<char>, c: char, upto: int) -> int
    decreases upto,
{
    if upto <= 0 || upto > s.len() {
        -1
    } else if s[upto - 1] == c {
        upto - 1
    } else {
        last_of(s, c, upto - 1)
    }
}

/// Whether `t` names a type: a built-in type, a defined name, or a
/// qualified name whose last part is a defined name.
pub open spec fn known_type(t: Seq<char>, defined: Seq<Seq<char>>) -> bool {
    let dot = last_of(t, '.', t.len() as int);
    type_names().contains(t) || defined.contains(t) || (0 <= dot < t.len() && defined.contains(
        t.subrange(dot + 1, t.len() as int),
    ))
}

fn is_defined(defined: &Vec<String>, name: &str) -> (r: bool)
    ensures
        r == defined.deep_view().contains(name@),
{
    let mut i: usize = 0;
    while i < defined.len()
        invariant
            i <= defined@.len(),
            forall|j: int| 0 <= j < i ==> defined.deep_view()[j] != name@,
        decreases defined.len() - i,
    {
        proof {
            assert(defined.deep_view()[i as int] == defined@[i as int]@);
        }
        if str_eq(defined[i].as_str(), name) {
            return true;
        }
        i += 1;
    }
    false
}

fn find_last(v: &Vec<char>, c: char) -> (r: Option<usize>)
    ensures
        match r {
            Some(i) => i < v@.len() && last_of(v@, c, v@.len() as int) == i,
            None => last_of(v@, c, v@.len() as int) == -1,
        },
{
    let mut i: usize = v.len();
    while i > 0
        invariant
            i <= v@.len(),
            last_of(v@, c, i as int) == last_of(v@, c, v@.len() as int),
        decreases i,
    {
        if v[i - 1] == c {
            return Some(i - 1);
        }
        i -= 1;
    }
    None
}

/// Whether `name` names a type that is known.
pub fn is_known_type(name: &str, defined: &Vec<String>) -> (r: bool)
    ensures
        r == known_type(name@, defined.deep_view()),
{
    if is_catalog_type(name) || is_defined(defined, name) {
        return true;
    }
    let v = to_chars(name);
    let n = v.len();
    match find_last(&v, '.') {
        Some(dot) => is_defined(defined, substring(&v, dot + 1, n).as_str()),
        None => false,
    }
}

/// The error for a field whose type is not known.
pub open spec fn type_error(m: ModelNodeView, f: FieldNodeView) -> DiagnosticView {
    error_view(
        "M3L-E009"@,
        f.loc.file,
        f.loc.line,
        "Undefined type \""@ + f.field_type->0 + "\" in field \""@ + f.name + "\" of "@
            + type_word(m.model_type) + " \""@ + m.name + "\""@,
    )
}

/// The type of a field, where it has one that is not empty, must be known.
pub open spec fn type_diagnostics(
    defined: Seq<Seq<char>>,
    m: ModelNodeView,
    f: FieldNodeView,
) -> Seq<DiagnosticView> {
    if f.field_type is Some && f.field_type->0.len() > 0 && !known_type(f.field_type->0, defined) {
        seq![type_error(m, f)]
    } else {
        Seq::empty()
    }
}

/// Checks the type of a field.
pub fn validate_field_type(
    defined: &Vec<String>,
    model: &ModelNode,
    f: &FieldNode,
    out: &mut Vec<Diagnostic>,
)
    ensures
        final(out).deep_view() == old(out).deep_view() + type_diagnostics(
            defined.deep_view(),
            model.deep_view(),
            field_view(f),
        ),
{
    let ghost before = out.deep_view();
    proof {
        assert(before + Seq::<DiagnosticView>::empty() =~= before);
    }
    match &f.field_type {
        Some(t) => {
            if t.as_str().unicode_len() > 0 && !is_known_type(t.as_str(), defined) {
                let mut m: Vec<char> = Vec::new();
                say(&mut m, "Undefined type \"");
                say(&mut m, t.as_str());
                say(&mut m, "\" in field \"");
                say(&mut m, f.name.as_str());
                say(&mut m, "\" of ");
                say(&mut m, model_type_word(model.model_type));
                say(&mut m, " \"");
                say(&mut m, model.name.as_str());
                say(&mut m, "\"");
                proof {
                    assert(m@ =~= "Undefined type \""@ + t@ + "\" in field \""@ + f.name@
                        + "\" of "@ + type_word(model.model_type) + " \""@ + model.name@ + "\""@);
                }
                report(out, error_at("M3L-E009", f.loc.file.as_str(), f.loc.line, &m));
                proof {
                    assert(out.deep_view() =~= before + seq![
                        type_error(model.deep_view(), field_view(f)),
                    ]);
                }
            }
        },
        None => {},
    }
}

/// The attributes that stood for cascade rules before the cascade marks did.
pub open spec fn is_deprecated_attr(name: Seq<char>) -> bool {
    name == "cascade"@ || name == "no_action"@ || name == "set_null"@ || name == "restrict"@
}

/// The warning for the type `datetime`.
pub open spec fn datetime_warning(f: FieldNodeView) -> DiagnosticView {
    warning_view(
        "M3L-W003"@,
        f.loc.file,
        f.loc.line,
        "Deprecated type \"datetime\" in field \""@ + f.name
            + "\" \u{2014} use \"timestamp\" instead"@,
    )
}

/// The warning for a deprecated attribute `name`.
pub open spec fn attr_warning(f: FieldNodeView, name: Seq<char>) -> DiagnosticView {
    warning_view(
        "M3L-W003"@,
        f.loc.file,
        f.loc.line,
        "Deprecated attribute \"@"@ + name + "\" in field \""@ + f.name
            + "\" \u{2014} use @reference symbol suffix (!/?/!!) or extended format instead"@,
    )
}

/// The warnings for the deprecated attributes of `f` from the `k`-th on.
pub open spec fn attr_warnings_from(f: FieldNodeView, k: int, acc: Seq<DiagnosticView>) -> Seq<
    DiagnosticView,
>
    decreases f.attributes.len() - k,
{
    if k < 0 || k >= f.attributes.len() {
        acc
    } else if is_deprecated_attr(f.attributes[k].name) {
        attr_warnings_from(f, k + 1, acc.push(attr_warning(f, f.attributes[k].name)))
    } else {
        attr_warnings_from(f, k + 1, acc)
    }
}

/// The type `datetime` and the attributes `cascade`, `no_action`, `set_null`
/// and `restrict` are deprecated.
pub open spec fn deprecated_diagnostics(f: FieldNodeView) -> Seq<DiagnosticView> {
    attr_warnings_from(
        f,
        0,
        if f.field_type == Some("datetime"@) {
            seq![datetime_warning(f)]
        } else {
            Seq::empty()
        },
    )
}

/// A fold that starts later gives what it adds to its start.
pub proof fn lemma_attr_warnings(f: FieldNodeView, k: int, acc: Seq<DiagnosticView>)
    ensures
        attr_warnings_from(f, k, acc) == acc + attr_warnings_from(f, k, Seq::empty()),
    decreases f.attributes.len() - k,
{
    if k < 0 || k >= f.attributes.len() {
        assert(acc + Seq::<DiagnosticView>::empty() =~= acc);
    } else if is_deprecated_attr(f.attributes[k].name) {
        let w = attr_warning(f, f.attributes[k].name);
        lemma_attr_warnings(f, k + 1, acc.push(w));
        lemma_attr_warnings(f, k + 1, Seq::<DiagnosticView>::empty().push(w));
        assert(acc.push(w) + attr_warnings_from(f, k + 1, Seq::empty()) =~= acc + (
            Seq::<DiagnosticView>::empty().push(w) + attr_warnings_from(f, k + 1, Seq::empty())));
    } else {
        lemma_attr_warnings(f, k + 1, acc);
    }
}

/// Warns of deprecated syntax in a field.
pub fn check_deprecated_syntax(f: &FieldNode, out: &mut Vec<Diagnostic>)
    ensures
        final(out).deep_view() == old(out).deep_view() + deprecated_diagnostics(field_view(f)),
{
    let ghost before = out.deep_view();
    let ghost fv = field_view(f);
    let is_datetime = match &f.field_type {
        Some(t) => str_eq(t.as_str(), "datetime"),
        None => false,
    };
    if is_datetime {
        let mut m: Vec<char> = Vec::new();
        say(&mut m, "Deprecated type \"datetime\" in field \"");
        say(&mut m, f.name.as_str());
        say(&mut m, "\" \u{2014} use \"timestamp\" instead");
        proof {
            assert(m@ =~= "Deprecated type \"datetime\" in field \""@ + f.name@
                + "\" \u{2014} use \"timestamp\" instead"@);
        }
        report(out, warning_at("M3L-W003", f.loc.file.as_str(), f.loc.line, &m));
    }
    let ghost start = out.deep_view();
    proof {
        assert(start =~= before + if fv.field_type == Some("datetime"@) {
            seq![datetime_warning(fv)]
        } else {
            Seq::empty()
        });
    }
    let mut k: usize = 0;
    while k < f.attributes.len()
        invariant
            k <= f.attributes@.len(),
            fv == field_view(f),
            attr_warnings_from(fv, k as int, out.deep_view()) == attr_warnings_from(fv, 0, start),
        decreases f.attributes.len() - k,
    {
        let name = f.attributes[k].name.as_str();
        proof {
            assert(fv.attributes[k as int].name == name@);
        }
        if str_eq(name, "cascade") || str_eq(name, "no_action") || str_eq(name, "set_null")
            || str_eq(name, "restrict") {
            let mut m: Vec<char> = Vec::new();
            say(&mut m, "Deprecated attribute \"@");
            say(&mut m, name);
            say(&mut m, "\" in field \"");
            say(&mut m, f.name.as_str());
            say(
                &mut m,
                "\" \u{2014} use @reference symbol suffix (!/?/!!) or extended format instead",
            );
            proof {
                assert(m@ =~= "Deprecated attribute \"@"@ + name@ + "\" in field \""@ + f.name@
                    + "\" \u{2014} use @reference symbol suffix (!/?/!!) or extended format instead"@);
            }
            report(out, warning_at("M3L-W003", f.loc.file.as_str(), f.loc.line, &m));
        }
        k += 1;
    }
    proof {
        lemma_attr_warnings(fv, 0, start);
        lemma_attr_warnings(
            fv,
            0,
            if fv.field_type == Some("datetime"@) {
                seq![datetime_warning(fv)]
            } else {
                Seq::empty()
            },
        );
        assert(out.deep_view() =~= before + deprecated_diagnostics(fv));
    }
}

/// The last of the first `upto` registered attributes with the name `name`.
pub open spec fn registry_index(
    registry: Seq<AttributeRegistryEntryView>,
    name: Seq<char>,
    upto: int,
) -> Option<int>
    decreases upto,
{
    if upto <= 0 || upto > registry.len() {
        None
    } else if registry[upto - 1].name == name {
        Some(upto - 1)
    } else {
        registry_index(registry, name, upto - 1)
    }
}

fn find_registered(registry: &Vec<AttributeRegistryEntry>, name: &str) -> (r: Option<usize>)
    ensures
        crate::scan::position(r) == registry_index(
            registry.deep_view(),
            name@,
            registry@.len() as int,
        ),
        r matches Some(i) ==> i < registry@.len(),
{
    let mut i: usize = registry.len();
    while i > 0
        invariant
            i <= registry@.len(),
            registry_index(registry.deep_view(), name@, i as int) == registry_index(
                registry.deep_view(),
                name@,
                registry@.len() as int,
            ),
        decreases i,
    {
        proof {
            assert(registry.deep_view()[i - 1].name == registry@[i - 1].name@);
        }
        if str_eq(registry[i - 1].name.as_str(), name) {
            return Some(i - 1);
        }
        i -= 1;
    }
    None
}

/// The end of the messages about an attribute of a field of a model.
pub open spec fn in_field(m: ModelNodeView, f: FieldNodeView) -> Seq<char> {
    " in field \""@ + f.name + "\" of "@ + type_word(m.model_type) + " \""@ + m.name + "\""@
}

/// The warning for an argument of the wrong type: `expected` is wanted, `got` is given.
pub open spec fn mismatch_warning(
    m: ModelNodeView,
    f: FieldNodeView,
    name: Seq<char>,
    expected: Seq<char>,
    got: Seq<char>,
) -> DiagnosticView {
    warning_view(
        "M3L-W005"@,
        f.loc.file,
        f.loc.line,
        "Attribute \"@"@ + name + "\" expects "@ + expected + " argument but got "@ + got
            + in_field(m, f),
    )
}

/// The warning for a number `n` outside the range from `low` to `high`.
pub open spec fn range_warning(
    m: ModelNodeView,
    f: FieldNodeView,
    name: Seq<char>,
    n: Seq<char>,
    low: Seq<char>,
    high: Seq<char>,
) -> DiagnosticView {
    warning_view(
        "M3L-W006"@,
        f.loc.file,
        f.loc.line,
        "Attribute \"@"@ + name + "\" argument "@ + n + " is outside range ["@ + low + ", "@
            + high + "]"@ + in_field(m, f),
    )
}

/// Whether the number `n` lies outside the range from `low` to `high`.
pub open spec fn out_of_range(n: Seq<char>, low: Seq<char>, high: Seq<char>) -> bool {
    (is_number(n) && is_number(low) && number_less(n, low)) || (is_number(high) && is_number(n)
        && number_less(high, n))
}

/// What the registry says of one argument of the attribute `name`: a
/// warning where its type is not the registered one, and a warning where it
/// is a number outside the registered range.
pub open spec fn argument_diagnostics(
    reg: AttributeRegistryEntryView,
    m: ModelNodeView,
    f: FieldNodeView,
    name: Seq<char>,
    arg: AttrArgView,
) -> Seq<DiagnosticView> {
    let first = if reg.attr_type == "number"@ && arg is String {
        seq![mismatch_warning(m, f, name, "number"@, "string"@)]
    } else if reg.attr_type == "string"@ && arg is Number {
        seq![mismatch_warning(m, f, name, "string"@, "number"@)]
    } else {
        Seq::empty()
    };
    match (reg.range, arg) {
        (Some(range), AttrArgView::Number(n)) => if out_of_range(n, range.0, range.1) {
            first.push(range_warning(m, f, name, n, range.0, range.1))
        } else {
            first
        },
        _ => first,
    }
}

/// What the registry says of the arguments from the `j`-th on.
pub open spec fn arguments_diagnostics_from(
    reg: AttributeRegistryEntryView,
    m: ModelNodeView,
    f: FieldNodeView,
    name: Seq<char>,
    args: Seq<AttrArgView>,
    j: int,
    acc: Seq<DiagnosticView>,
) -> Seq<DiagnosticView>
    decreases args.len() - j,
{
    if j < 0 || j >= args.len() {
        acc
    } else {
        arguments_diagnostics_from(
            reg,
            m,
            f,
            name,
            args,
            j + 1,
            acc + argument_diagnostics(reg, m, f, name, args[j]),
        )
    }
}

/// What the registry says of the attributes of `f` from the `k`-th on.
pub open spec fn registry_diagnostics_from(
    registry: Seq<AttributeRegistryEntryView>,
    m: ModelNodeView,
    f: FieldNodeView,
    k: int,
    acc: Seq<DiagnosticView>,
) -> Seq<DiagnosticView>
    decreases f.attributes.len() - k,
{
    if k < 0 || k >= f.attributes.len() {
        acc
    } else {
        let a = f.attributes[k];
        match registry_index(registry, a.name, registry.len() as int) {
            Some(i) => match a.args {
                Some(args) => if 0 <= i < registry.len() {
                    registry_diagnostics_from(
                        registry,
                        m,
                        f,
                        k + 1,
                        arguments_diagnostics_from(registry[i], m, f, a.name, args, 0, acc),
                    )
                } else {
                    registry_diagnostics_from(registry, m, f, k + 1, acc)
                },
                None => registry_diagnostics_from(registry, m, f, k + 1, acc),
            },
            None => registry_diagnostics_from(registry, m, f, k + 1, acc),
        }
    }
}

fn say_in_field(t: &mut Vec<char>, model: &ModelNode, f: &FieldNode)
    ensures
        final(t)@ == old(t)@ + in_field(model.deep_view(), field_view(f)),
{
    let ghost before = t@;
    say(t, " in field \"");
    say(t, f.name.as_str());
    say(t, "\" of ");
    say(t, model_type_word(model.model_type));
    say(t, " \"");
    say(t, model.name.as_str());
    say(t, "\"");
    proof {
        assert(t@ =~= before + (" in field \""@ + f.name@ + "\" of "@ + type_word(
            model.model_type,
        ) + " \""@ + model.name@ + "\""@));
    }
}

fn check_argument(
    reg: &AttributeRegistryEntry,
    model: &ModelNode,
    f: &FieldNode,
    name: &str,
    arg: &AttrArgValue,
    out: &mut Vec<Diagnostic>,
)
    ensures
        final(out).deep_view() == old(out).deep_view() + argument_diagnostics(
            reg.deep_view(),
            model.deep_view(),
            field_view(f),
            name@,
            arg.deep_view(),
        ),
{
    let ghost before = out.deep_view();
    let wants_number = str_eq(reg.attr_type.as_str(), "number");
    let wants_string = str_eq(reg.attr_type.as_str(), "string");
    let (is_string, is_number_arg) = match arg {
        AttrArgValue::String(_) => (true, false),
        AttrArgValue::Number(_) => (false, true),
        AttrArgValue::Bool(_) => (false, false),
    };
    if (wants_number && is_string) || (wants_string && is_number_arg) {
        let mut t: Vec<char> = Vec::new();
        say(&mut t, "Attribute \"@");
        say(&mut t, name);
        say(&mut t, "\" expects ");
        if wants_number && is_string {
            say(&mut t, "number");
            say(&mut t, " argument but got ");
            say(&mut t, "string");
        } else {
            say(&mut t, "string");
            say(&mut t, " argument but got ");
            say(&mut t, "number");
        }
        let ghost head = t@;
        say_in_field(&mut t, model, f);
        proof {
            if wants_number && is_string {
                assert(head =~= "Attribute \"@"@ + name@ + "\" expects "@ + "number"@
                    + " argument but got "@ + "string"@);
            } else {
                assert(head =~= "Attribute \"@"@ + name@ + "\" expects "@ + "string"@
                    + " argument but got "@ + "number"@);
            }
        }
        report(out, warning_at("M3L-W005", f.loc.file.as_str(), f.loc.line, &t));
    }
    let ghost first = out.deep_view();
    proof {
        assert(before + Seq::<DiagnosticView>::empty() =~= before);
        assert(first =~= before + if reg.deep_view().attr_type == "number"@
            && arg.deep_view() is String {
            seq![
                mismatch_warning(
                    model.deep_view(),
                    field_view(f),
                    name@,
                    "number"@,
                    "string"@,
                ),
            ]
        } else if reg.deep_view().attr_type == "string"@ && arg.deep_view() is Number {
            seq![
                mismatch_warning(
                    model.deep_view(),
                    field_view(f),
                    name@,
                    "string"@,
                    "number"@,
                ),
            ]
        } else {
            Seq::empty()
        });
    }
    match (&reg.range, arg) {
        (Some(range), AttrArgValue::Number(n)) => {
            let value = n.text.as_str();
            let low = range.0.text.as_str();
            let high = range.1.text.as_str();
            if is_less(value, low) || is_less(high, value) {
                let mut t: Vec<char> = Vec::new();
                say(&mut t, "Attribute \"@");
                say(&mut t, name);
                say(&mut t, "\" argument ");
                say(&mut t, value);
                say(&mut t, " is outside range [");
                say(&mut t, low);
                say(&mut t, ", ");
                say(&mut t, high);
                say(&mut t, "]");
                let ghost head = t@;
                say_in_field(&mut t, model, f);
                proof {
                    assert(head =~= "Attribute \"@"@ + name@ + "\" argument "@ + value@
                        + " is outside range ["@ + low@ + ", "@ + high@ + "]"@);
                }
                report(out, warning_at("M3L-W006", f.loc.file.as_str(), f.loc.line, &t));
            }
        },
        _ => {},
    }
    proof {
        assert(out.deep_view() =~= before + argument_diagnostics(
            reg.deep_view(),
            model.deep_view(),
            field_view(f),
            name@,
            arg.deep_view(),
        ));
    }
}

/// A fold that starts later gives what it adds to its start.
pub proof fn lemma_arguments_diagnostics(
    reg: AttributeRegistryEntryView,
    m: ModelNodeView,
    f: FieldNodeView,
    name: Seq<char>,
    args: Seq<AttrArgView>,
    j: int,
    acc: Seq<DiagnosticView>,
)
    ensures
        arguments_diagnostics_from(reg, m, f, name, args, j, acc) == acc
            + arguments_diagnostics_from(reg, m, f, name, args, j, Seq::empty()),
    decreases args.len() - j,
{
    if j < 0 || j >= args.len() {
        assert(acc + Seq::<DiagnosticView>::empty() =~= acc);
    } else {
        let d = argument_diagnostics(reg, m, f, name, args[j]);
        lemma_arguments_diagnostics(reg, m, f, name, args, j + 1, acc + d);
        lemma_arguments_diagnostics(reg, m, f, name, args, j + 1, Seq::empty() + d);
        assert((acc + d) + arguments_diagnostics_from(reg, m, f, name, args, j + 1, Seq::empty())
            =~= acc + ((Seq::empty() + d) + arguments_diagnostics_from(
            reg,
            m,
            f,
            name,
            args,
            j + 1,
            Seq::empty(),
        )));
    }
}

/// A fold that starts later gives what it adds to its start.
pub proof fn lemma_registry_diagnostics(
    registry: Seq<AttributeRegistryEntryView>,
    m: ModelNodeView,
    f: FieldNodeView,
    k: int,
    acc: Seq<DiagnosticView>,
)
    ensures
        registry_diagnostics_from(registry, m, f, k, acc) == acc + registry_diagnostics_from(
            registry,
            m,
            f,
            k,
            Seq::empty(),
        ),
    decreases f.attributes.len() - k,
{
    if k < 0 || k >= f.attributes.len() {
        assert(acc + Seq::<DiagnosticView>::empty() =~= acc);
    } else {
        let a = f.attributes[k];
        let found = registry_index(registry, a.name, registry.len() as int);
        if found is Some && a.args is Some && 0 <= found->0 < registry.len() {
            let reg = registry[found->0];
            let args = a.args->0;
            lemma_arguments_diagnostics(reg, m, f, a.name, args, 0, acc);
            let d = arguments_diagnostics_from(reg, m, f, a.name, args, 0, Seq::empty());
            lemma_registry_diagnostics(registry, m, f, k + 1, acc + d);
            lemma_registry_diagnostics(registry, m, f, k + 1, d);
            assert((acc + d) + registry_diagnostics_from(registry, m, f, k + 1, Seq::empty())
                =~= acc + (d + registry_diagnostics_from(registry, m, f, k + 1, Seq::empty())));
        } else {
            lemma_registry_diagnostics(registry, m, f, k + 1, acc);
        }
    }
}

/// The arguments of the attributes that the registry knows must have the
/// registered type and lie in the registered range.
pub open spec fn registry_diagnostics(
    registry: Seq<AttributeRegistryEntryView>,
    m: ModelNodeView,
    f: FieldNodeView,
) -> Seq<DiagnosticView> {
    registry_diagnostics_from(registry, m, f, 0, Seq::empty())
}

/// Holds the arguments of a field's attributes to the registry.
pub fn validate_registry_attrs(
    registry: &Vec<AttributeRegistryEntry>,
    model: &ModelNode,
    f: &FieldNode,
    out: &mut Vec<Diagnostic>,
)
    ensures
        final(out).deep_view() == old(out).deep_view() + registry_diagnostics(
            registry.deep_view(),
            model.deep_view(),
            field_view(f),
        ),
{
    let ghost fv = field_view(f);
    let ghost mv = model.deep_view();
    let ghost regs = registry.deep_view();
    let mut k: usize = 0;
    while k < f.attributes.len()
        invariant
            k <= f.attributes@.len(),
            fv == field_view(f),
            mv == model.deep_view(),
            regs == registry.deep_view(),
            registry_diagnostics_from(regs, mv, fv, k as int, out.deep_view())
                == registry_diagnostics_from(regs, mv, fv, 0, old(out).deep_view()),
        decreases f.attributes.len() - k,
    {
        let a = &f.attributes[k];
        proof {
            assert(fv.attributes[k as int] == a.deep_view());
        }
        match find_registered(registry, a.name.as_str()) {
            Some(i) => {
                match &a.args {
                    Some(args) => {
                        let reg = &registry[i];
                        proof {
                            assert(regs[i as int] == reg.deep_view());
                        }
                        let ghost start = out.deep_view();
                        let mut j: usize = 0;
                        while j < args.len()
                            invariant
                                j <= args@.len(),
                                fv == field_view(f),
                                mv == model.deep_view(),
                                regs == registry.deep_view(),
                                i < registry@.len(),
                                reg.deep_view() == regs[i as int],
                                arguments_diagnostics_from(
                                    regs[i as int],
                                    mv,
                                    fv,
                                    a.name@,
                                    args.deep_view(),
                                    j as int,
                                    out.deep_view(),
                                ) == arguments_diagnostics_from(
                                    regs[i as int],
                                    mv,
                                    fv,
                                    a.name@,
                                    args.deep_view(),
                                    0,
                                    start,
                                ),
                            decreases args.len() - j,
                        {
                            proof {
                                assert(args.deep_view()[j as int] == args@[j as int].deep_view());
                            }
                            check_argument(reg, model, f, a.name.as_str(), &args[j], out);
                            j += 1;
                        }
                    },
                    None => {},
                }
            },
            None => {},
        }
        k += 1;
    }
    proof {
        lemma_registry_diagnostics(regs, mv, fv, 0, old(out).deep_view());
    }
}

/// A length, or the largest number that a length can be where it is more.
pub open spec fn capped(n: nat) -> usize {
    if n > usize::MAX {
        usize::MAX
    } else {
        n as usize
    }
}

fn plus(a: usize, b: usize) -> (r: usize)
    ensures
        r == capped((a + b) as nat),
{
    if a > usize::MAX - b {
        usize::MAX
    } else {
        a + b
    }
}

/// The length that the attributes from the `k`-th on take on a line: two
/// characters and the name for each.
pub open spec fn attrs_length(attrs: Seq<FieldAttributeView>, k: int) -> nat
    decreases attrs.len() - k,
{
    if k < 0 || k >= attrs.len() {
        0
    } else {
        2 + attrs[k].name.len() + attrs_length(attrs, k + 1)
    }
}

/// The length of an optional part of a line, with `extra` characters around it.
pub open spec fn part_length(part: Option<Seq<char>>, extra: nat) -> nat {
    match part {
        Some(p) => extra + p.len(),
        None => 0,
    }
}

/// About how long the line of a field is, in characters: the list mark and
/// the name, the label in parentheses, the type after a colon, a mark for
/// nullable, the default value, the attributes and the description.
pub open spec fn approx_length(f: FieldNodeView) -> nat {
    2 + f.name.len() + part_length(f.label, 2) + part_length(f.field_type, 2) + (if f.nullable {
        1nat
    } else {
        0nat
    }) + part_length(f.default_value, 3) + attrs_length(f.attributes, 0) + part_length(
        f.description,
        3,
    )
}

fn length_of(s: &String) -> (r: usize)
    ensures
        r == s@.len(),
{
    s.as_str().unicode_len()
}

fn part(p: &Option<String>, extra: usize) -> (r: usize)
    ensures
        r == capped(part_length(p.deep_view(), extra as nat)),
{
    match p {
        Some(s) => plus(extra, length_of(s)),
        None => 0,
    }
}

fn attributes_length(attrs: &Vec<FieldAttribute>) -> (r: usize)
    ensures
        r == capped(attrs_length(attrs.deep_view(), 0)),
{
    let mut acc: usize = 0;
    let mut k: usize = attrs.len();
    while k > 0
        invariant
            k <= attrs@.len(),
            acc == capped(attrs_length(attrs.deep_view(), k as int)),
        decreases k,
    {
        k -= 1;
        proof {
            assert(attrs.deep_view()[k as int].name == attrs@[k as int].name@);
        }
        acc = plus(plus(2, length_of(&attrs[k].name)), acc);
    }
    acc
}

fn approximate_length(f: &FieldNode) -> (r: usize)
    ensures
        r == capped(approx_length(field_view(f))),
{
    let mut acc: usize = plus(2, length_of(&f.name));
    acc = plus(acc, part(&f.label, 2));
    acc = plus(acc, part(&f.field_type, 2));
    if f.nullable {
        acc = plus(acc, 1);
    }
    acc = plus(acc, part(&f.default_value, 3));
    acc = plus(acc, attributes_length(&f.attributes));
    acc = plus(acc, part(&f.description, 3));
    acc
}

/// The warning for the line of a field that is too long.
pub open spec fn length_warning(f: FieldNodeView) -> DiagnosticView {
    warning_view(
        "M3L-W001"@,
        f.loc.file,
        f.loc.line,
        "Field \""@ + f.name + "\" line length (~"@ + decimal(capped(approx_length(f)) as nat)
            + " chars) exceeds 80 character guideline"@,
    )
}

/// The number of segments of a lookup path.
pub open spec fn hops(path: Seq<char>) -> nat {
    split(path, '.').len()
}

/// The warning for a lookup over more than three segments.
pub open spec fn chain_warning(f: FieldNodeView) -> DiagnosticView {
    warning_view(
        "M3L-W004"@,
        f.loc.file,
        f.loc.line,
        "Lookup chain \""@ + f.lookup->0.path + "\" exceeds 3 hops ("@ + decimal(
            hops(f.lookup->0.path),
        ) + " hops)"@,
    )
}

/// The style rules of strict mode for one field: its line is no longer than
/// 80 characters, and a lookup has no more than three segments.
pub open spec fn strict_diagnostics(f: FieldNodeView) -> Seq<DiagnosticView> {
    (if approx_length(f) > 80 {
        seq![length_warning(f)]
    } else {
        Seq::empty()
    }) + (if f.kind == FieldKind::Lookup && f.lookup is Some && hops(f.lookup->0.path) > 3 {
        seq![chain_warning(f)]
    } else {
        Seq::empty()
    })
}

/// Warns where the line of a field is longer than 80 characters.
pub fn check_field_line_length(f: &FieldNode, out: &mut Vec<Diagnostic>)
    ensures
        final(out).deep_view() == old(out).deep_view() + if approx_length(field_view(f)) > 80 {
            seq![length_warning(field_view(f))]
        } else {
            Seq::empty()
        },
{
    let ghost before = out.deep_view();
    let len = approximate_length(f);
    if len > 80 {
        let mut t: Vec<char> = Vec::new();
        say(&mut t, "Field \"");
        say(&mut t, f.name.as_str());
        say(&mut t, "\" line length (~");
        say_number(&mut t, len);
        say(&mut t, " chars) exceeds 80 character guideline");
        proof {
            assert(t@ =~= "Field \""@ + f.name@ + "\" line length (~"@ + decimal(len as nat)
                + " chars) exceeds 80 character guideline"@);
        }
        report(out, warning_at("M3L-W001", f.loc.file.as_str(), f.loc.line, &t));
        proof {
            assert(out.deep_view() =~= before + seq![length_warning(field_view(f))]);
        }
    } else {
        proof {
            assert(before + Seq::<DiagnosticView>::empty() =~= before);
        }
    }
}

fn check_lookup_chain(f: &FieldNode, out: &mut Vec<Diagnostic>)
    ensures
        final(out).deep_view() == old(out).deep_view() + if field_view(f).kind == FieldKind::Lookup
            && field_view(f).lookup is Some && hops(field_view(f).lookup->0.path) > 3 {
            seq![chain_warning(field_view(f))]
        } else {
            Seq::empty()
        },
{
    let ghost before = out.deep_view();
    proof {
        assert(before + Seq::<DiagnosticView>::empty() =~= before);
    }
    match f.kind {
        FieldKind::Lookup => {},
        _ => {
            return ;
        },
    }
    match &f.lookup {
        Some(l) => {
            let pieces = split_char(&to_chars(l.path.as_str()), '.');
            let n = pieces.len();
            proof {
                assert(texts(pieces@).len() == n);
            }
            if n > 3 {
                let mut t: Vec<char> = Vec::new();
                say(&mut t, "Lookup chain \"");
                say(&mut t, l.path.as_str());
                say(&mut t, "\" exceeds 3 hops (");
                say_number(&mut t, n);
                say(&mut t, " hops)");
                proof {
                    assert(t@ =~= "Lookup chain \""@ + l.path@ + "\" exceeds 3 hops ("@
                        + decimal(n as nat) + " hops)"@);
                }
                report(out, warning_at("M3L-W004", f.loc.file.as_str(), f.loc.line, &t));
                proof {
                    assert(out.deep_view() =~= before + seq![chain_warning(field_view(f))]);
                }
            }
        },
        None => {},
    }
}

/// What `rule` finds in one field of the model `m`.
pub open spec fn field_diagnostics(
    rule: FieldRule,
    ctx: Context,
    m: ModelNodeView,
    f: FieldNodeView,
) -> Seq<DiagnosticView> {
    match rule {
        FieldRule::Rollup => rollup_diagnostics(ctx.all, f),
        FieldRule::Lookup => lookup_diagnostics(m, f),
        FieldRule::Types => type_diagnostics(ctx.defined, m, f),
        FieldRule::Deprecated => deprecated_diagnostics(f),
        FieldRule::Registry => registry_diagnostics(ctx.registry, m, f),
        FieldRule::Strict => strict_diagnostics(f),
    }
}

/// What `rule` finds in the fields from the `k`-th on, in order; with
/// `deep`, the fields below a field follow it.
pub open spec fn fields_diagnostics(
    rule: FieldRule,
    ctx: Context,
    m: ModelNodeView,
    fields: Seq<FieldNodeView>,
    k: int,
    deep: bool,
) -> Seq<DiagnosticView>
    decreases fields, fields.len() - k,
{
    if k < 0 || k >= fields.len() {
        Seq::empty()
    } else {
        field_diagnostics(rule, ctx, m, fields[k]) + (match fields[k].fields {
            Some(sub) => if deep {
                fields_diagnostics(rule, ctx, m, sub, 0, deep)
            } else {
                Seq::empty()
            },
            None => Seq::empty(),
        }) + fields_diagnostics(rule, ctx, m, fields, k + 1, deep)
    }
}

/// What `rule` finds in the models from the `i`-th on, in order.
pub open spec fn models_diagnostics(
    rule: FieldRule,
    ctx: Context,
    list: Seq<ModelNodeView>,
    i: int,
    deep: bool,
) -> Seq<DiagnosticView>
    decreases list.len() - i,
{
    if i < 0 || i >= list.len() {
        Seq::empty()
    } else {
        fields_diagnostics(rule, ctx, list[i], list[i].fields, 0, deep) + models_diagnostics(
            rule,
            ctx,
            list,
            i + 1,
            deep,
        )
    }
}

/// What the rules look things up in, from the lists that validation holds.
pub open spec fn context_of(
    all: Seq<ModelNodeView>,
    defined: Seq<Seq<char>>,
    registry: Seq<AttributeRegistryEntryView>,
) -> Context {
    Context { all: all, defined: defined, registry: registry }
}

fn check_field(
    rule: FieldRule,
    all: &Vec<ModelNode>,
    defined: &Vec<String>,
    registry: &Vec<AttributeRegistryEntry>,
    model: &ModelNode,
    f: &FieldNode,
    out: &mut Vec<Diagnostic>,
)
    ensures
        final(out).deep_view() == old(out).deep_view() + field_diagnostics(
            rule,
            context_of(all.deep_view(), defined.deep_view(), registry.deep_view()),
            model.deep_view(),
            field_view(f),
        ),
{
    match rule {
        FieldRule::Rollup => validate_rollup_reference(all, f, out),
        FieldRule::Lookup => validate_lookup_reference(model, f, out),
        FieldRule::Types => validate_field_type(defined, model, f, out),
        FieldRule::Deprecated => check_deprecated_syntax(f, out),
        FieldRule::Registry => validate_registry_attrs(registry, model, f, out),
        FieldRule::Strict => {
            let ghost before = out.deep_view();
            check_field_line_length(f, out);
            let ghost mid = out.deep_view();
            check_lookup_chain(f, out);
            proof {
                assert(out.deep_view() =~= before + strict_diagnostics(field_view(f)));
            }
        },
    }
}

/// Applies `rule` to each of `fields`, and with `deep` to the fields below them.
pub fn check_fields(
    rule: FieldRule,
    all: &Vec<ModelNode>,
    defined: &Vec<String>,
    registry: &Vec<AttributeRegistryEntry>,
    model: &ModelNode,
    fields: &Vec<FieldNode>,
    deep: bool,
    out: &mut Vec<Diagnostic>,
)
    ensures
        final(out).deep_view() == old(out).deep_view() + fields_diagnostics(
            rule,
            context_of(all.deep_view(), defined.deep_view(), registry.deep_view()),
            model.deep_view(),
            fields.deep_view(),
            0,
            deep,
        ),
    decreases fields,
{
    let ghost ctx = context_of(all.deep_view(), defined.deep_view(), registry.deep_view());
    let ghost mv = model.deep_view();
    let ghost fv = fields.deep_view();
    let mut k: usize = 0;
    while k < fields.len()
        invariant
            k <= fields@.len(),
            ctx == context_of(all.deep_view(), defined.deep_view(), registry.deep_view()),
            mv == model.deep_view(),
            fv == fields.deep_view(),
            out.deep_view() + fields_diagnostics(rule, ctx, mv, fv, k as int, deep) == old(
                out,
            ).deep_view() + fields_diagnostics(rule, ctx, mv, fv, 0, deep),
        decreases fields.len() - k,
    {
        let f = &fields[k];
        let ghost start = out.deep_view();
        proof {
            assert(fv[k as int] == field_view(f));
        }
        check_field(rule, all, defined, registry, model, f, out);
        let ghost mid = out.deep_view();
        if deep {
            match &f.fields {
                Some(sub) => {
                    proof {
                        lemma_field_view_fields(f);
                    }
                    check_fields(rule, all, defined, registry, model, sub, deep, out);
                },
                None => {},
            }
        }
        proof {
            let own = field_diagnostics(rule, ctx, mv, fv[k as int]);
            let below = match fv[k as int].fields {
                Some(sub) => if deep {
                    fields_diagnostics(rule, ctx, mv, sub, 0, deep)
                } else {
                    Seq::empty()
                },
                None => Seq::empty(),
            };
            let rest = fields_diagnostics(rule, ctx, mv, fv, k + 1, deep);
            assert(out.deep_view() =~= start + own + below);
            assert(out.deep_view() + rest =~= start + (own + below + rest));
        }
        k += 1;
    }
    proof {
        assert(out.deep_view() + Seq::<DiagnosticView>::empty() =~= out.deep_view());
    }
}

/// Applies `rule` to the fields of each model in `list`.
pub fn check_models(
    rule: FieldRule,
    all: &Vec<ModelNode>,
    defined: &Vec<String>,
    registry: &Vec<AttributeRegistryEntry>,
    list: &Vec<ModelNode>,
    deep: bool,
    out: &mut Vec<Diagnostic>,
)
    ensures
        final(out).deep_view() == old(out).deep_view() + models_diagnostics(
            rule,
            context_of(all.deep_view(), defined.deep_view(), registry.deep_view()),
            list.deep_view(),
            0,
            deep,
        ),
{
    let ghost ctx = context_of(all.deep_view(), defined.deep_view(), registry.deep_view());
    let ghost lv = list.deep_view();
    let mut i: usize = 0;
    while i < list.len()
        invariant
            i <= list@.len(),
            ctx == context_of(all.deep_view(), defined.deep_view(), registry.deep_view()),
            lv == list.deep_view(),
            out.deep_view() + models_diagnostics(rule, ctx, lv, i as int, deep) == old(
                out,
            ).deep_view() + models_diagnostics(rule, ctx, lv, 0, deep),
        decreases list.len() - i,
    {
        let ghost start = out.deep_view();
        proof {
            assert(lv[i as int] == list@[i as int].deep_view());
        }
        check_fields(rule, all, defined, registry, &list[i], &list[i].fields, deep, out);
        proof {
            let own = fields_diagnostics(rule, ctx, lv[i as int], lv[i as int].fields, 0, deep);
            let rest = models_diagnostics(rule, ctx, lv, i + 1, deep);
            assert(out.deep_view() + rest =~= start + (own + rest));
        }
        i += 1;
    }
    proof {
        assert(out.deep_view() + Seq::<DiagnosticView>::empty() =~= out.deep_view());
    }
}

} // verus!
