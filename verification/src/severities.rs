//! The severity of diagnostics: whatever the resolver and the validator put
//! among the errors is an error, and whatever they put among the warnings
//! is a warning.

use vstd::prelude::*;
use crate::imports::{
    circular_from, circular_imports, source_index, unvisited, visit, visit_imports,
};
use crate::pipeline::parsed_files;
use crate::resolver::{
    all_interfaces, all_models, all_views, ambiguity_errors_from, def_index, definitions,
    duplicate_errors_from, duplicate_fields_from, duplicate_fields_in, field_index, import_graph,
    inherit_all, inherit_from, inherited_models, inherited_views, name_errors, namespaces_from,
    parent_index, parent_node, resolve_in, resolve_models_from, resolve_views_from, resolved,
};
use crate::rules::{
    arguments_diagnostics_from, attr_warnings_from, field_diagnostics, fields_diagnostics,
    is_deprecated_attr, models_diagnostics, registry_diagnostics_from, registry_index, Context,
    FieldRule,
};
use crate::types::{
    AttrArgView, AttributeRegistryEntryView, DefinitionView, DiagnosticSeverity, DiagnosticView,
    FieldNodeView, M3lAstView, M3lFileView, ModelNodeView, ParsedFileView, ProjectInfoView,
};
use crate::validator::{
    context, models_and_views, nesting_diagnostics, next_level, relations_diagnostics,
    relations_diagnostics_in, repeated_fields, repeated_fields_in, source_errors, source_missing,
    strict_warnings, validated,
};

verus! {

/// Whether every diagnostic of the list has the severity `s`.
pub open spec fn all_are(list: Seq<DiagnosticView>, s: DiagnosticSeverity) -> bool {
    forall|i: int| 0 <= i < list.len() ==> (#[trigger] list[i]).severity == s
}

/// Two lists of one severity have it together.
pub proof fn lemma_all_are_add(a: Seq<DiagnosticView>, b: Seq<DiagnosticView>, s: DiagnosticSeverity)
    requires
        all_are(a, s),
        all_are(b, s),
    ensures
        all_are(a + b, s),
{
    assert forall|i: int| 0 <= i < (a + b).len() implies (#[trigger] (a + b)[i]).severity == s by {
        if i < a.len() {
            assert((a + b)[i] == a[i]);
        } else {
            assert((a + b)[i] == b[i - a.len()]);
        }
    }
}

/// A list of one severity keeps it with one more diagnostic of that severity.
pub proof fn lemma_all_are_push(a: Seq<DiagnosticView>, d: DiagnosticView, s: DiagnosticSeverity)
    requires
        all_are(a, s),
        d.severity == s,
    ensures
        all_are(a.push(d), s),
{
    assert forall|i: int| 0 <= i < a.push(d).len() implies (#[trigger] a.push(d)[i]).severity
        == s by {
        if i < a.len() {
            assert(a.push(d)[i] == a[i]);
        }
    }
}

/// The severity of what a rule finds: references and types are errors,
/// the rest are warnings.
pub open spec fn rule_severity(rule: FieldRule) -> DiagnosticSeverity {
    match rule {
        FieldRule::Rollup | FieldRule::Lookup | FieldRule::Types => DiagnosticSeverity::Error,
        _ => DiagnosticSeverity::Warning,
    }
}

proof fn lemma_attr_warnings_marked(f: FieldNodeView, k: int, acc: Seq<DiagnosticView>)
    requires
        all_are(acc, DiagnosticSeverity::Warning),
    ensures
        all_are(attr_warnings_from(f, k, acc), DiagnosticSeverity::Warning),
    decreases f.attributes.len() - k,
{
    if 0 <= k < f.attributes.len() {
        if is_deprecated_attr(f.attributes[k].name) {
            let w = crate::rules::attr_warning(f, f.attributes[k].name);
            lemma_all_are_push(acc, w, DiagnosticSeverity::Warning);
            lemma_attr_warnings_marked(f, k + 1, acc.push(w));
        } else {
            lemma_attr_warnings_marked(f, k + 1, acc);
        }
    }
}

proof fn lemma_arguments_marked(
    reg: AttributeRegistryEntryView,
    m: ModelNodeView,
    f: FieldNodeView,
    name: Seq<char>,
    args: Seq<AttrArgView>,
    j: int,
    acc: Seq<DiagnosticView>,
)
    requires
        all_are(acc, DiagnosticSeverity::Warning),
    ensures
        all_are(
            arguments_diagnostics_from(reg, m, f, name, args, j, acc),
            DiagnosticSeverity::Warning,
        ),
    decreases args.len() - j,
{
    if 0 <= j < args.len() {
        let d = crate::rules::argument_diagnostics(reg, m, f, name, args[j]);
        assert(all_are(d, DiagnosticSeverity::Warning));
        lemma_all_are_add(acc, d, DiagnosticSeverity::Warning);
        lemma_arguments_marked(reg, m, f, name, args, j + 1, acc + d);
    }
}

proof fn lemma_registry_marked(
    registry: Seq<AttributeRegistryEntryView>,
    m: ModelNodeView,
    f: FieldNodeView,
    k: int,
    acc: Seq<DiagnosticView>,
)
    requires
        all_are(acc, DiagnosticSeverity::Warning),
    ensures
        all_are(registry_diagnostics_from(registry, m, f, k, acc), DiagnosticSeverity::Warning),
    decreases f.attributes.len() - k,
{
    if 0 <= k < f.attributes.len() {
        let a = f.attributes[k];
        let found = registry_index(registry, a.name, registry.len() as int);
        if found is Some && a.args is Some && 0 <= found->0 < registry.len() {
            lemma_arguments_marked(registry[found->0], m, f, a.name, a.args->0, 0, acc);
            lemma_registry_marked(
                registry,
                m,
                f,
                k + 1,
                arguments_diagnostics_from(registry[found->0], m, f, a.name, a.args->0, 0, acc),
            );
        } else {
            lemma_registry_marked(registry, m, f, k + 1, acc);
        }
    }
}

/// What a rule finds in one field has the severity of the rule.
pub proof fn lemma_field_rule_marked(rule: FieldRule, ctx: Context, m: ModelNodeView, f: FieldNodeView)
    ensures
        all_are(field_diagnostics(rule, ctx, m, f), rule_severity(rule)),
{
    match rule {
        FieldRule::Rollup => {},
        FieldRule::Lookup => {},
        FieldRule::Types => {},
        FieldRule::Deprecated => {
            let start = if f.field_type == Some("datetime"@) {
                seq![crate::rules::datetime_warning(f)]
            } else {
                Seq::empty()
            };
            lemma_attr_warnings_marked(f, 0, start);
        },
        FieldRule::Registry => {
            lemma_registry_marked(ctx.registry, m, f, 0, Seq::empty());
        },
        FieldRule::Strict => {},
    }
}

proof fn lemma_fields_rule_marked(
    rule: FieldRule,
    ctx: Context,
    m: ModelNodeView,
    fields: Seq<FieldNodeView>,
    k: int,
    deep: bool,
)
    ensures
        all_are(fields_diagnostics(rule, ctx, m, fields, k, deep), rule_severity(rule)),
    decreases fields, fields.len() - k,
{
    if 0 <= k < fields.len() {
        let f = fields[k];
        let s = rule_severity(rule);
        lemma_field_rule_marked(rule, ctx, m, f);
        let own = field_diagnostics(rule, ctx, m, f);
        let below = match f.fields {
            Some(sub) => if deep {
                fields_diagnostics(rule, ctx, m, sub, 0, deep)
            } else {
                Seq::empty()
            },
            None => Seq::empty(),
        };
        if f.fields is Some && deep {
            lemma_fields_rule_marked(rule, ctx, m, f.fields->0, 0, deep);
        }
        lemma_fields_rule_marked(rule, ctx, m, fields, k + 1, deep);
        lemma_all_are_add(own, below, s);
        lemma_all_are_add(own + below, fields_diagnostics(rule, ctx, m, fields, k + 1, deep), s);
    }
}

/// What a rule finds in a list of models has the severity of the rule.
pub proof fn lemma_models_rule_marked(
    rule: FieldRule,
    ctx: Context,
    list: Seq<ModelNodeView>,
    i: int,
    deep: bool,
)
    ensures
        all_are(models_diagnostics(rule, ctx, list, i, deep), rule_severity(rule)),
    decreases list.len() - i,
{
    if 0 <= i < list.len() {
        lemma_fields_rule_marked(rule, ctx, list[i], list[i].fields, 0, deep);
        lemma_models_rule_marked(rule, ctx, list, i + 1, deep);
        lemma_all_are_add(
            fields_diagnostics(rule, ctx, list[i], list[i].fields, 0, deep),
            models_diagnostics(rule, ctx, list, i + 1, deep),
            rule_severity(rule),
        );
    }
}

proof fn lemma_source_errors_marked(all: Seq<ModelNodeView>, views: Seq<ModelNodeView>, i: int)
    ensures
        all_are(source_errors(all, views, i), DiagnosticSeverity::Error),
    decreases views.len() - i,
{
    if 0 <= i < views.len() {
        lemma_source_errors_marked(all, views, i + 1);
        if source_missing(all, views[i]) {
            lemma_all_are_add(
                seq![crate::validator::source_error(views[i])],
                source_errors(all, views, i + 1),
                DiagnosticSeverity::Error,
            );
        }
    }
}

proof fn lemma_repeated_marked(m: ModelNodeView, k: int)
    ensures
        all_are(repeated_fields(m, k), DiagnosticSeverity::Error),
    decreases m.fields.len() - k,
{
    if 0 <= k < m.fields.len() {
        lemma_repeated_marked(m, k + 1);
        if field_index(m.fields, m.fields[k].name, 0) < k {
            lemma_all_are_add(
                seq![crate::validator::repeated_field_error(m, k)],
                repeated_fields(m, k + 1),
                DiagnosticSeverity::Error,
            );
        }
    }
}

proof fn lemma_repeated_in_marked(list: Seq<ModelNodeView>, i: int)
    ensures
        all_are(repeated_fields_in(list, i), DiagnosticSeverity::Error),
    decreases list.len() - i,
{
    if 0 <= i < list.len() {
        lemma_repeated_marked(list[i], 0);
        lemma_repeated_in_marked(list, i + 1);
        lemma_all_are_add(
            repeated_fields(list[i], 0),
            repeated_fields_in(list, i + 1),
            DiagnosticSeverity::Error,
        );
    }
}

proof fn lemma_relations_marked(m: ModelNodeView, k: int)
    ensures
        all_are(relations_diagnostics(m, k), DiagnosticSeverity::Error),
    decreases m.sections.relations.len() - k,
{
    if 0 <= k < m.sections.relations.len() {
        let rel = m.sections.relations[k];
        lemma_relations_marked(m, k + 1);
        lemma_all_are_add(
            crate::validator::relation_diagnostics(m, rel, crate::validator::via_caps(rel)),
            relations_diagnostics(m, k + 1),
            DiagnosticSeverity::Error,
        );
    }
}

proof fn lemma_relations_in_marked(list: Seq<ModelNodeView>, i: int)
    ensures
        all_are(relations_diagnostics_in(list, i), DiagnosticSeverity::Error),
    decreases list.len() - i,
{
    if 0 <= i < list.len() {
        lemma_relations_marked(list[i], 0);
        lemma_relations_in_marked(list, i + 1);
        lemma_all_are_add(
            relations_diagnostics(list[i], 0),
            relations_diagnostics_in(list, i + 1),
            DiagnosticSeverity::Error,
        );
    }
}

proof fn lemma_nesting_marked(m: ModelNodeView, fields: Seq<FieldNodeView>, k: int, level: int)
    ensures
        all_are(nesting_diagnostics(m, fields, k, level), DiagnosticSeverity::Warning),
    decreases fields, fields.len() - k,
{
    if 0 <= k < fields.len() {
        let f = fields[k];
        let s = DiagnosticSeverity::Warning;
        lemma_nesting_marked(m, fields, k + 1, level);
        let own = match f.fields {
            Some(sub) => if sub.len() > 0 {
                (if level >= 3 {
                    seq![crate::validator::nesting_warning(m, f)]
                } else {
                    Seq::empty()
                }) + nesting_diagnostics(m, sub, 0, next_level(level))
            } else {
                Seq::empty()
            },
            None => Seq::empty(),
        };
        if f.fields is Some && f.fields->0.len() > 0 {
            let sub = f.fields->0;
            lemma_nesting_marked(m, sub, 0, next_level(level));
            lemma_all_are_add(
                if level >= 3 {
                    seq![crate::validator::nesting_warning(m, f)]
                } else {
                    Seq::empty()
                },
                nesting_diagnostics(m, sub, 0, next_level(level)),
                s,
            );
        }
        lemma_all_are_add(own, nesting_diagnostics(m, fields, k + 1, level), s);
    }
}

proof fn lemma_strict_marked(ctx: Context, list: Seq<ModelNodeView>, i: int)
    ensures
        all_are(strict_warnings(ctx, list, i), DiagnosticSeverity::Warning),
    decreases list.len() - i,
{
    if 0 <= i < list.len() {
        let m = list[i];
        let s = DiagnosticSeverity::Warning;
        lemma_fields_rule_marked(FieldRule::Strict, ctx, m, m.fields, 0, false);
        lemma_nesting_marked(m, m.fields, 0, 1);
        lemma_strict_marked(ctx, list, i + 1);
        let a = fields_diagnostics(FieldRule::Strict, ctx, m, m.fields, 0, false);
        let b = nesting_diagnostics(m, m.fields, 0, 1);
        lemma_all_are_add(a, b, s);
        lemma_all_are_add(a + b, strict_warnings(ctx, list, i + 1), s);
    }
}

/// Validation puts errors among the errors and warnings among the
/// warnings: where the tree holds its diagnostics so, the result does.
pub proof fn lemma_validated_marked(ast: M3lAstView, strict: bool)
    requires
        all_are(ast.errors, DiagnosticSeverity::Error),
        all_are(ast.warnings, DiagnosticSeverity::Warning),
    ensures
        all_are(validated(ast, strict).errors, DiagnosticSeverity::Error),
        all_are(validated(ast, strict).warnings, DiagnosticSeverity::Warning),
{
    let all = models_and_views(ast);
    let ctx = context(ast);
    let e = DiagnosticSeverity::Error;
    let w = DiagnosticSeverity::Warning;
    let e1 = models_diagnostics(FieldRule::Rollup, ctx, all, 0, false);
    let e2 = models_diagnostics(FieldRule::Lookup, ctx, all, 0, false);
    let e3 = source_errors(all, ast.views, 0);
    let e4 = repeated_fields_in(all, 0);
    let e5 = models_diagnostics(FieldRule::Types, ctx, all, 0, true);
    let e6 = relations_diagnostics_in(all, 0);
    lemma_models_rule_marked(FieldRule::Rollup, ctx, all, 0, false);
    lemma_models_rule_marked(FieldRule::Lookup, ctx, all, 0, false);
    lemma_source_errors_marked(all, ast.views, 0);
    lemma_repeated_in_marked(all, 0);
    lemma_models_rule_marked(FieldRule::Types, ctx, all, 0, true);
    lemma_relations_in_marked(all, 0);
    lemma_all_are_add(ast.errors, e1, e);
    lemma_all_are_add(ast.errors + e1, e2, e);
    lemma_all_are_add(ast.errors + e1 + e2, e3, e);
    lemma_all_are_add(ast.errors + e1 + e2 + e3, e4, e);
    lemma_all_are_add(ast.errors + e1 + e2 + e3 + e4, e5, e);
    lemma_all_are_add(ast.errors + e1 + e2 + e3 + e4 + e5, e6, e);
    let w1 = models_diagnostics(FieldRule::Deprecated, ctx, all, 0, true);
    let w2 = models_diagnostics(FieldRule::Registry, ctx, all, 0, true);
    let w3 = if strict {
        strict_warnings(ctx, all, 0)
    } else {
        Seq::empty()
    };
    lemma_models_rule_marked(FieldRule::Deprecated, ctx, all, 0, true);
    lemma_models_rule_marked(FieldRule::Registry, ctx, all, 0, true);
    if strict {
        lemma_strict_marked(ctx, all, 0);
    }
    lemma_all_are_add(ast.warnings, w1, w);
    lemma_all_are_add(ast.warnings + w1, w2, w);
    lemma_all_are_add(ast.warnings + w1 + w2, w3, w);
}

proof fn lemma_duplicates_marked(defs: Seq<DefinitionView>, i: int, acc: Seq<DiagnosticView>)
    requires
        all_are(acc, DiagnosticSeverity::Error),
    ensures
        all_are(duplicate_errors_from(defs, i, acc), DiagnosticSeverity::Error),
    decreases defs.len() - i,
{
    if 0 <= i < defs.len() {
        let first = def_index(defs, defs[i].name, 0);
        if 0 <= first < i {
            let e = crate::resolver::duplicate_error(defs, i, first);
            lemma_all_are_push(acc, e, DiagnosticSeverity::Error);
            lemma_duplicates_marked(defs, i + 1, acc.push(e));
        } else {
            lemma_duplicates_marked(defs, i + 1, acc);
        }
    }
}

proof fn lemma_ambiguities_marked(defs: Seq<DefinitionView>, i: int, acc: Seq<DiagnosticView>)
    requires
        all_are(acc, DiagnosticSeverity::Error),
    ensures
        all_are(ambiguity_errors_from(defs, i, acc), DiagnosticSeverity::Error),
    decreases defs.len() - i,
{
    if 0 <= i < defs.len() {
        let name = defs[i].name;
        let second = def_index(defs, name, i + 1);
        let spaces = namespaces_from(defs, name, 0, Seq::empty());
        if def_index(defs, name, 0) == i && 0 <= second < defs.len() && spaces.len() >= 2 {
            let e = crate::resolver::ambiguity_error(defs, second, spaces);
            lemma_all_are_push(acc, e, DiagnosticSeverity::Error);
            lemma_ambiguities_marked(defs, i + 1, acc.push(e));
        } else {
            lemma_ambiguities_marked(defs, i + 1, acc);
        }
    }
}

proof fn lemma_inherit_from_marked(
    models: Seq<ModelNodeView>,
    interfaces: Seq<ModelNodeView>,
    defs: Seq<DefinitionView>,
    child: ModelNodeView,
    name: Seq<char>,
    visiting: Seq<bool>,
    st: (Seq<FieldNodeView>, Seq<bool>, Seq<DiagnosticView>),
)
    requires
        all_are(st.2, DiagnosticSeverity::Error),
    ensures
        all_are(
            inherit_from(models, interfaces, defs, child, name, visiting, st).2,
            DiagnosticSeverity::Error,
        ),
    decreases unvisited(visiting), 0nat,
{
    match parent_index(models, interfaces, name) {
        None => {
            if !(def_index(defs, name, 0) < defs.len()) {
                lemma_all_are_push(
                    st.2,
                    crate::resolver::unresolved_error(child, name),
                    DiagnosticSeverity::Error,
                );
            }
        },
        Some(p) => {
            if 0 <= p < visiting.len() && p < st.1.len() && p < models.len() + interfaces.len()
                && !visiting[p] && !st.1[p] && unvisited(visiting.update(p, true)) < unvisited(
                visiting,
            ) {
                let parent = parent_node(models, interfaces, p);
                lemma_inherit_all_marked(
                    models,
                    interfaces,
                    defs,
                    child,
                    parent.inherits,
                    0,
                    visiting.update(p, true),
                    st,
                );
            }
        },
    }
}

proof fn lemma_inherit_all_marked(
    models: Seq<ModelNodeView>,
    interfaces: Seq<ModelNodeView>,
    defs: Seq<DefinitionView>,
    child: ModelNodeView,
    names: Seq<Seq<char>>,
    k: int,
    visiting: Seq<bool>,
    st: (Seq<FieldNodeView>, Seq<bool>, Seq<DiagnosticView>),
)
    requires
        all_are(st.2, DiagnosticSeverity::Error),
    ensures
        all_are(
            inherit_all(models, interfaces, defs, child, names, k, visiting, st).2,
            DiagnosticSeverity::Error,
        ),
    decreases unvisited(visiting), 1 + names.len() - k,
{
    if 0 <= k < names.len() {
        lemma_inherit_from_marked(models, interfaces, defs, child, names[k], visiting, st);
        lemma_inherit_all_marked(
            models,
            interfaces,
            defs,
            child,
            names,
            k + 1,
            visiting,
            inherit_from(models, interfaces, defs, child, names[k], visiting, st),
        );
    }
}

proof fn lemma_resolve_in_marked(
    list: Seq<ModelNodeView>,
    models: Seq<ModelNodeView>,
    interfaces: Seq<ModelNodeView>,
    defs: Seq<DefinitionView>,
    i: int,
    errors: Seq<DiagnosticView>,
)
    requires
        all_are(errors, DiagnosticSeverity::Error),
    ensures
        all_are(resolve_in(list, models, interfaces, defs, i, errors).1, DiagnosticSeverity::Error),
{
    let m = list[i];
    if m.inherits.len() > 0 {
        let none = Seq::new(models.len() + interfaces.len(), |j: int| false);
        lemma_inherit_all_marked(
            models,
            interfaces,
            defs,
            m,
            m.inherits,
            0,
            none,
            (Seq::empty(), none, errors),
        );
    }
}

proof fn lemma_resolve_models_marked(
    models: Seq<ModelNodeView>,
    interfaces: Seq<ModelNodeView>,
    defs: Seq<DefinitionView>,
    i: int,
    errors: Seq<DiagnosticView>,
)
    requires
        all_are(errors, DiagnosticSeverity::Error),
    ensures
        all_are(
            resolve_models_from(models, interfaces, defs, i, errors).1,
            DiagnosticSeverity::Error,
        ),
    decreases models.len() - i,
{
    if 0 <= i < models.len() {
        lemma_resolve_in_marked(models, models, interfaces, defs, i, errors);
        let r = resolve_in(models, models, interfaces, defs, i, errors);
        if r.0.len() == models.len() {
            lemma_resolve_models_marked(r.0, interfaces, defs, i + 1, r.1);
        }
    }
}

proof fn lemma_resolve_views_marked(
    views: Seq<ModelNodeView>,
    models: Seq<ModelNodeView>,
    interfaces: Seq<ModelNodeView>,
    defs: Seq<DefinitionView>,
    i: int,
    errors: Seq<DiagnosticView>,
)
    requires
        all_are(errors, DiagnosticSeverity::Error),
    ensures
        all_are(
            resolve_views_from(views, models, interfaces, defs, i, errors).1,
            DiagnosticSeverity::Error,
        ),
    decreases views.len() - i,
{
    if 0 <= i < views.len() {
        lemma_resolve_in_marked(views, models, interfaces, defs, i, errors);
        let r = resolve_in(views, models, interfaces, defs, i, errors);
        if r.0.len() == views.len() {
            lemma_resolve_views_marked(r.0, models, interfaces, defs, i + 1, r.1);
        }
    }
}

proof fn lemma_duplicate_field_marked(m: ModelNodeView, k: int, acc: Seq<DiagnosticView>)
    requires
        all_are(acc, DiagnosticSeverity::Error),
    ensures
        all_are(duplicate_fields_from(m, k, acc), DiagnosticSeverity::Error),
    decreases m.fields.len() - k,
{
    if 0 <= k < m.fields.len() {
        let first = field_index(m.fields, m.fields[k].name, 0);
        if 0 <= first < k {
            let e = crate::resolver::duplicate_field_error(m, k, first);
            lemma_all_are_push(acc, e, DiagnosticSeverity::Error);
            lemma_duplicate_field_marked(m, k + 1, acc.push(e));
        } else {
            lemma_duplicate_field_marked(m, k + 1, acc);
        }
    }
}

proof fn lemma_duplicate_fields_marked(list: Seq<ModelNodeView>, i: int, acc: Seq<DiagnosticView>)
    requires
        all_are(acc, DiagnosticSeverity::Error),
    ensures
        all_are(duplicate_fields_in(list, i, acc), DiagnosticSeverity::Error),
    decreases list.len() - i,
{
    if 0 <= i < list.len() {
        lemma_duplicate_field_marked(list[i], 0, acc);
        lemma_duplicate_fields_marked(list, i + 1, duplicate_fields_from(list[i], 0, acc));
    }
}

/// Whether every diagnostic of the list reports a circular import: an
/// error with the code `M3L-E003`, at the start of its file.
pub open spec fn all_cycles(list: Seq<DiagnosticView>) -> bool {
    forall|i: int|
        0 <= i < list.len() ==> {
            &&& (#[trigger] list[i]).code == "M3L-E003"@
            &&& list[i].severity == DiagnosticSeverity::Error
            &&& list[i].line == 1
            &&& list[i].col == 1
        }
}

proof fn lemma_all_cycles_push(a: Seq<DiagnosticView>, d: DiagnosticView)
    requires
        all_cycles(a),
        d.code == "M3L-E003"@,
        d.severity == DiagnosticSeverity::Error,
        d.line == 1,
        d.col == 1,
    ensures
        all_cycles(a.push(d)),
{
    assert forall|i: int| 0 <= i < a.push(d).len() implies {
        &&& (#[trigger] a.push(d)[i]).code == "M3L-E003"@
        &&& a.push(d)[i].severity == DiagnosticSeverity::Error
        &&& a.push(d)[i].line == 1
        &&& a.push(d)[i].col == 1
    } by {
        if i < a.len() {
            assert(a.push(d)[i] == a[i]);
        }
    }
}

proof fn lemma_visit_marked(
    files: Seq<(Seq<char>, Seq<Seq<char>>)>,
    idx: int,
    visited: Seq<bool>,
    stack: Seq<Seq<char>>,
    errors: Seq<DiagnosticView>,
)
    requires
        all_cycles(errors),
    ensures
        all_cycles(visit(files, idx, visited, stack, errors).1),
    decreases unvisited(visited), 0nat,
{
    if 0 <= idx < files.len() && visited.len() == files.len() && !visited[idx] && unvisited(
        visited.update(idx, true),
    ) < unvisited(visited) {
        lemma_visit_imports_marked(
            files,
            idx,
            0,
            visited.update(idx, true),
            stack.push(files[idx].0),
            errors,
        );
    }
}

proof fn lemma_visit_imports_marked(
    files: Seq<(Seq<char>, Seq<Seq<char>>)>,
    idx: int,
    k: int,
    visited: Seq<bool>,
    stack: Seq<Seq<char>>,
    errors: Seq<DiagnosticView>,
)
    requires
        all_cycles(errors),
    ensures
        all_cycles(visit_imports(files, idx, k, visited, stack, errors).1),
    decreases unvisited(visited), 1 + files[idx].1.len() - k,
{
    if !(idx < 0 || idx >= files.len() || k < 0 || k >= files[idx].1.len()) {
        let name = files[idx].1[k];
        match source_index(files, name, files.len() as int) {
            Some(j) => {
                if 0 <= j < visited.len() && !visited[j] {
                    lemma_visit_marked(files, j, visited, stack, errors);
                    let r = visit(files, j, visited, stack, errors);
                    if unvisited(r.0) <= unvisited(visited) {
                        lemma_visit_imports_marked(files, idx, k + 1, r.0, stack, r.1);
                    }
                } else if stack.contains(name) {
                    let e = crate::imports::cycle_error(files[idx].0, stack, name);
                    lemma_all_cycles_push(errors, e);
                    lemma_visit_imports_marked(files, idx, k + 1, visited, stack, errors.push(e));
                } else {
                    lemma_visit_imports_marked(files, idx, k + 1, visited, stack, errors);
                }
            },
            None => {
                lemma_visit_imports_marked(files, idx, k + 1, visited, stack, errors);
            },
        }
    }
}

proof fn lemma_circular_marked(
    files: Seq<(Seq<char>, Seq<Seq<char>>)>,
    i: int,
    visited: Seq<bool>,
    errors: Seq<DiagnosticView>,
)
    requires
        all_cycles(errors),
    ensures
        all_cycles(circular_from(files, i, visited, errors)),
    decreases files.len() - i,
{
    if 0 <= i < files.len() {
        match source_index(files, files[i].0, files.len() as int) {
            Some(j) => {
                if 0 <= j < visited.len() && !visited[j] {
                    lemma_visit_marked(files, j, visited, Seq::empty(), errors);
                    let r = visit(files, j, visited, Seq::empty(), errors);
                    lemma_circular_marked(files, i + 1, r.0, r.1);
                } else {
                    lemma_circular_marked(files, i + 1, visited, errors);
                }
            },
            None => {
                lemma_circular_marked(files, i + 1, visited, errors);
            },
        }
    }
}

/// Every diagnostic of the import check is an error with the code
/// `M3L-E003`, at line 1 and column 1.
pub proof fn lemma_circular_imports_marked(files: Seq<(Seq<char>, Seq<Seq<char>>)>)
    ensures
        all_cycles(circular_imports(files)),
        all_are(circular_imports(files), DiagnosticSeverity::Error),
{
    lemma_circular_marked(files, 0, Seq::new(files.len(), |i: int| false), Seq::empty());
}

/// The resolver puts errors among the errors, and no warnings at all.
pub proof fn lemma_resolved_marked(files: Seq<ParsedFileView>, project: Option<ProjectInfoView>)
    ensures
        all_are(resolved(files, project).errors, DiagnosticSeverity::Error),
        all_are(resolved(files, project).warnings, DiagnosticSeverity::Warning),
{
    let e = DiagnosticSeverity::Error;
    let defs = definitions(files);
    lemma_duplicates_marked(defs, 0, Seq::empty());
    lemma_ambiguities_marked(defs, 0, duplicate_errors_from(defs, 0, Seq::empty()));
    lemma_resolve_models_marked(all_models(files), all_interfaces(files), defs, 0, name_errors(defs));
    let r = inherited_models(files);
    lemma_resolve_views_marked(all_views(files), r.0, all_interfaces(files), defs, 0, r.1);
    let v = inherited_views(files);
    lemma_duplicate_fields_marked(r.0, 0, v.1);
    let e1 = duplicate_fields_in(r.0, 0, v.1);
    lemma_duplicate_fields_marked(v.0, 0, e1);
    let e2 = duplicate_fields_in(v.0, 0, e1);
    lemma_circular_imports_marked(import_graph(files));
    lemma_all_are_add(e2, circular_imports(import_graph(files)), e);
}

/// Every error of a tree that is parsed, resolved and validated has the
/// severity of an error, and every warning that of a warning.
pub proof fn lemma_diagnostic_severities(
    files: Seq<M3lFileView>,
    project: Option<ProjectInfoView>,
    strict: bool,
)
    ensures
        all_are(
            validated(resolved(parsed_files(files), project), strict).errors,
            DiagnosticSeverity::Error,
        ),
        all_are(
            validated(resolved(parsed_files(files), project), strict).warnings,
            DiagnosticSeverity::Warning,
        ),
{
    lemma_resolved_marked(parsed_files(files), project);
    lemma_validated_marked(resolved(parsed_files(files), project), strict);
}

} // verus!
