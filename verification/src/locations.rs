//! Where diagnostics point: every diagnostic names a file that the caller
//! gave. This holds of the resolver and of the validator for trees whose
//! own places name such files, and the parser makes no other trees.

use vstd::prelude::*;
use crate::imports::{circular_from, circular_imports, cycle_error, unvisited, visit, visit_imports};
use crate::resolver::{
    all_enums, all_interfaces, all_models, all_views, ambiguity_error, ambiguity_errors_from,
    def_index, definitions, duplicate_error, duplicate_errors_from, duplicate_field_error,
    duplicate_fields_from, duplicate_fields_in, enum_definitions, field_index, import_graph,
    inherit_all, inherit_from, inherited_models, inherited_views, kept_from, model_definitions,
    name_errors, namespaces_from, parent_index, parent_node, resolve_in, resolve_model,
    resolve_models_from, resolve_views_from, resolved, tag_model, tag_models, unresolved_error,
    with_inherited, lemma_model_index, registered_names, all_registry,
};
use crate::rules::{
    argument_diagnostics, arguments_diagnostics_from, attr_warnings_from, field_diagnostics,
    fields_diagnostics, models_diagnostics, registry_diagnostics_from, Context, FieldRule,
};
use crate::types::{
    AttrArgView, AttributeRegistryEntryView, DefinitionView, DiagnosticView, EnumNodeView,
    FieldNodeView, M3lAstView, ModelNodeView, ModelType, ParsedFileView, ProjectInfoView,
};
use crate::validator::{
    context, models_and_views, nesting_diagnostics, relation_diagnostics, relation_file,
    relations_diagnostics, relations_diagnostics_in, repeated_fields, repeated_fields_in,
    source_errors, strict_warnings, validated, via_caps,
};

verus! {

/// Whether every diagnostic of the list names one of the files `known`.
pub open spec fn files_in(list: Seq<DiagnosticView>, known: Seq<Seq<char>>) -> bool {
    forall|i: int| 0 <= i < list.len() ==> known.contains((#[trigger] list[i]).file)
}

/// Two lists that name known files do so together.
pub proof fn lemma_files_in_add(
    a: Seq<DiagnosticView>,
    b: Seq<DiagnosticView>,
    known: Seq<Seq<char>>,
)
    requires
        files_in(a, known),
        files_in(b, known),
    ensures
        files_in(a + b, known),
{
    assert forall|i: int| 0 <= i < (a + b).len() implies known.contains(
        (#[trigger] (a + b)[i]).file,
    ) by {
        if i < a.len() {
            assert((a + b)[i] == a[i]);
        } else {
            assert((a + b)[i] == b[i - a.len()]);
        }
    }
}

/// A list that names known files does so with one more that does.
pub proof fn lemma_files_in_push(a: Seq<DiagnosticView>, d: DiagnosticView, known: Seq<Seq<char>>)
    requires
        files_in(a, known),
        known.contains(d.file),
    ensures
        files_in(a.push(d), known),
{
    assert forall|i: int| 0 <= i < a.push(d).len() implies known.contains(
        (#[trigger] a.push(d)[i]).file,
    ) by {
        if i < a.len() {
            assert(a.push(d)[i] == a[i]);
        }
    }
}

/// Whether the place of a field, and of every field below it, names a known file.
pub open spec fn field_located(f: FieldNodeView, known: Seq<Seq<char>>) -> bool
    decreases f,
{
    known.contains(f.loc.file) && match f.fields {
        Some(sub) => forall|i: int| 0 <= i < sub.len() ==> field_located(#[trigger] sub[i], known),
        None => true,
    }
}

/// Whether the places of all the fields name known files.
pub open spec fn fields_located(fields: Seq<FieldNodeView>, known: Seq<Seq<char>>) -> bool {
    forall|i: int| 0 <= i < fields.len() ==> field_located(#[trigger] fields[i], known)
}

/// Whether the places of a model name known files: its own, those of its
/// fields, and those of its relations.
pub open spec fn model_located(m: ModelNodeView, known: Seq<Seq<char>>) -> bool {
    &&& known.contains(m.source)
    &&& fields_located(m.fields, known)
    &&& forall|k: int|
        0 <= k < m.sections.relations.len() ==> known.contains(
            relation_file(m, #[trigger] m.sections.relations[k]),
        )
}

/// Whether the places of all the models name known files.
pub open spec fn models_located(list: Seq<ModelNodeView>, known: Seq<Seq<char>>) -> bool {
    forall|i: int| 0 <= i < list.len() ==> model_located(#[trigger] list[i], known)
}

/// What a rule finds in one field names the file of that field.
pub proof fn lemma_field_rule_files(
    rule: FieldRule,
    ctx: Context,
    m: ModelNodeView,
    f: FieldNodeView,
    known: Seq<Seq<char>>,
)
    requires
        known.contains(f.loc.file),
    ensures
        files_in(field_diagnostics(rule, ctx, m, f), known),
{
    match rule {
        FieldRule::Rollup => {},
        FieldRule::Lookup => {},
        FieldRule::Types => {},
        FieldRule::Deprecated => {
            let start = if f.field_type == Some("datetime"@) {
                seq![crate::rules::datetime_warning(f)]
            } else {
                Seq::empty()
            };
            lemma_attr_warning_files(f, 0, start, known);
        },
        FieldRule::Registry => {
            lemma_registry_files(ctx.registry, m, f, 0, Seq::empty(), known);
        },
        FieldRule::Strict => {},
    }
}

/// The warnings for deprecated attributes name the file of the field.
pub proof fn lemma_attr_warning_files(
    f: FieldNodeView,
    k: int,
    acc: Seq<DiagnosticView>,
    known: Seq<Seq<char>>,
)
    requires
        known.contains(f.loc.file),
        files_in(acc, known),
    ensures
        files_in(attr_warnings_from(f, k, acc), known),
    decreases f.attributes.len() - k,
{
    if 0 <= k < f.attributes.len() {
        if crate::rules::is_deprecated_attr(f.attributes[k].name) {
            let w = crate::rules::attr_warning(f, f.attributes[k].name);
            lemma_files_in_push(acc, w, known);
            lemma_attr_warning_files(f, k + 1, acc.push(w), known);
        } else {
            lemma_attr_warning_files(f, k + 1, acc, known);
        }
    }
}

/// What the registry says of the arguments of an attribute names the file
/// of the field.
pub proof fn lemma_argument_files(
    reg: AttributeRegistryEntryView,
    m: ModelNodeView,
    f: FieldNodeView,
    name: Seq<char>,
    args: Seq<AttrArgView>,
    j: int,
    acc: Seq<DiagnosticView>,
    known: Seq<Seq<char>>,
)
    requires
        known.contains(f.loc.file),
        files_in(acc, known),
    ensures
        files_in(arguments_diagnostics_from(reg, m, f, name, args, j, acc), known),
    decreases args.len() - j,
{
    if 0 <= j < args.len() {
        let d = argument_diagnostics(reg, m, f, name, args[j]);
        assert(files_in(d, known));
        lemma_files_in_add(acc, d, known);
        lemma_argument_files(reg, m, f, name, args, j + 1, acc + d, known);
    }
}

/// What the registry says of the attributes of a field names the file of the field.
pub proof fn lemma_registry_files(
    registry: Seq<AttributeRegistryEntryView>,
    m: ModelNodeView,
    f: FieldNodeView,
    k: int,
    acc: Seq<DiagnosticView>,
    known: Seq<Seq<char>>,
)
    requires
        known.contains(f.loc.file),
        files_in(acc, known),
    ensures
        files_in(registry_diagnostics_from(registry, m, f, k, acc), known),
    decreases f.attributes.len() - k,
{
    if 0 <= k < f.attributes.len() {
        let a = f.attributes[k];
        let found = crate::rules::registry_index(registry, a.name, registry.len() as int);
        if found is Some && a.args is Some && 0 <= found->0 < registry.len() {
            lemma_argument_files(registry[found->0], m, f, a.name, a.args->0, 0, acc, known);
            lemma_registry_files(
                registry,
                m,
                f,
                k + 1,
                arguments_diagnostics_from(registry[found->0], m, f, a.name, a.args->0, 0, acc),
                known,
            );
        } else {
            lemma_registry_files(registry, m, f, k + 1, acc, known);
        }
    }
}

/// What a rule finds in fields whose places name known files names known files.
pub proof fn lemma_fields_rule_files(
    rule: FieldRule,
    ctx: Context,
    m: ModelNodeView,
    fields: Seq<FieldNodeView>,
    k: int,
    deep: bool,
    known: Seq<Seq<char>>,
)
    requires
        fields_located(fields, known),
    ensures
        files_in(fields_diagnostics(rule, ctx, m, fields, k, deep), known),
    decreases fields, fields.len() - k,
{
    if 0 <= k < fields.len() {
        let f = fields[k];
        assert(field_located(f, known));
        lemma_field_rule_files(rule, ctx, m, f, known);
        let own = field_diagnostics(rule, ctx, m, f);
        let below = match f.fields {
            Some(sub) => if deep {
                fields_diagnostics(rule, ctx, m, sub, 0, deep)
            } else {
                Seq::empty()
            },
            None => Seq::empty(),
        };
        if f.fields is Some && deep {
            lemma_fields_rule_files(rule, ctx, m, f.fields->0, 0, deep, known);
        }
        lemma_fields_rule_files(rule, ctx, m, fields, k + 1, deep, known);
        lemma_files_in_add(own, below, known);
        lemma_files_in_add(own + below, fields_diagnostics(rule, ctx, m, fields, k + 1, deep), known);
    }
}

/// What a rule finds in models whose places name known files names known files.
pub proof fn lemma_models_rule_files(
    rule: FieldRule,
    ctx: Context,
    list: Seq<ModelNodeView>,
    i: int,
    deep: bool,
    known: Seq<Seq<char>>,
)
    requires
        models_located(list, known),
    ensures
        files_in(models_diagnostics(rule, ctx, list, i, deep), known),
    decreases list.len() - i,
{
    if 0 <= i < list.len() {
        assert(model_located(list[i], known));
        lemma_fields_rule_files(rule, ctx, list[i], list[i].fields, 0, deep, known);
        lemma_models_rule_files(rule, ctx, list, i + 1, deep, known);
        lemma_files_in_add(
            fields_diagnostics(rule, ctx, list[i], list[i].fields, 0, deep),
            models_diagnostics(rule, ctx, list, i + 1, deep),
            known,
        );
    }
}

/// The errors for the sources of views name the files of the views.
pub proof fn lemma_source_error_files(
    all: Seq<ModelNodeView>,
    views: Seq<ModelNodeView>,
    i: int,
    known: Seq<Seq<char>>,
)
    requires
        models_located(views, known),
    ensures
        files_in(source_errors(all, views, i), known),
    decreases views.len() - i,
{
    if 0 <= i < views.len() {
        assert(model_located(views[i], known));
        lemma_source_error_files(all, views, i + 1, known);
        if crate::validator::source_missing(all, views[i]) {
            lemma_files_in_add(
                seq![crate::validator::source_error(views[i])],
                source_errors(all, views, i + 1),
                known,
            );
        }
    }
}

/// The errors for repeated field names name the files of the fields.
pub proof fn lemma_repeated_files(m: ModelNodeView, k: int, known: Seq<Seq<char>>)
    requires
        model_located(m, known),
    ensures
        files_in(repeated_fields(m, k), known),
    decreases m.fields.len() - k,
{
    if 0 <= k < m.fields.len() {
        assert(field_located(m.fields[k], known));
        lemma_repeated_files(m, k + 1, known);
        if field_index(m.fields, m.fields[k].name, 0) < k {
            lemma_files_in_add(
                seq![crate::validator::repeated_field_error(m, k)],
                repeated_fields(m, k + 1),
                known,
            );
        }
    }
}

/// The errors for repeated field names in a list of models name known files.
pub proof fn lemma_repeated_in_files(list: Seq<ModelNodeView>, i: int, known: Seq<Seq<char>>)
    requires
        models_located(list, known),
    ensures
        files_in(repeated_fields_in(list, i), known),
    decreases list.len() - i,
{
    if 0 <= i < list.len() {
        assert(model_located(list[i], known));
        lemma_repeated_files(list[i], 0, known);
        lemma_repeated_in_files(list, i + 1, known);
        lemma_files_in_add(repeated_fields(list[i], 0), repeated_fields_in(list, i + 1), known);
    }
}

/// The errors for the relations of a model name known files.
pub proof fn lemma_relation_files(m: ModelNodeView, k: int, known: Seq<Seq<char>>)
    requires
        model_located(m, known),
    ensures
        files_in(relations_diagnostics(m, k), known),
    decreases m.sections.relations.len() - k,
{
    if 0 <= k < m.sections.relations.len() {
        let rel = m.sections.relations[k];
        assert(known.contains(relation_file(m, rel)));
        lemma_relation_files(m, k + 1, known);
        lemma_files_in_add(
            relation_diagnostics(m, rel, via_caps(rel)),
            relations_diagnostics(m, k + 1),
            known,
        );
    }
}

/// The errors for the relations of a list of models name known files.
pub proof fn lemma_relations_in_files(list: Seq<ModelNodeView>, i: int, known: Seq<Seq<char>>)
    requires
        models_located(list, known),
    ensures
        files_in(relations_diagnostics_in(list, i), known),
    decreases list.len() - i,
{
    if 0 <= i < list.len() {
        assert(model_located(list[i], known));
        lemma_relation_files(list[i], 0, known);
        lemma_relations_in_files(list, i + 1, known);
        lemma_files_in_add(
            relations_diagnostics(list[i], 0),
            relations_diagnostics_in(list, i + 1),
            known,
        );
    }
}

/// The warnings for nesting name the files of the fields.
pub proof fn lemma_nesting_files(
    m: ModelNodeView,
    fields: Seq<FieldNodeView>,
    k: int,
    level: int,
    known: Seq<Seq<char>>,
)
    requires
        fields_located(fields, known),
    ensures
        files_in(nesting_diagnostics(m, fields, k, level), known),
    decreases fields, fields.len() - k,
{
    if 0 <= k < fields.len() {
        let f = fields[k];
        assert(field_located(f, known));
        lemma_nesting_files(m, fields, k + 1, level, known);
        let own = match f.fields {
            Some(sub) => if sub.len() > 0 {
                (if level >= 3 {
                    seq![crate::validator::nesting_warning(m, f)]
                } else {
                    Seq::empty()
                }) + nesting_diagnostics(m, sub, 0, crate::validator::next_level(level))
            } else {
                Seq::empty()
            },
            None => Seq::empty(),
        };
        if f.fields is Some && f.fields->0.len() > 0 {
            let sub = f.fields->0;
            lemma_nesting_files(m, sub, 0, crate::validator::next_level(level), known);
            lemma_files_in_add(
                if level >= 3 {
                    seq![crate::validator::nesting_warning(m, f)]
                } else {
                    Seq::empty()
                },
                nesting_diagnostics(m, sub, 0, crate::validator::next_level(level)),
                known,
            );
        }
        lemma_files_in_add(own, nesting_diagnostics(m, fields, k + 1, level), known);
    }
}

/// The style warnings of strict mode name known files.
pub proof fn lemma_strict_files(ctx: Context, list: Seq<ModelNodeView>, i: int, known: Seq<Seq<char>>)
    requires
        models_located(list, known),
    ensures
        files_in(strict_warnings(ctx, list, i), known),
    decreases list.len() - i,
{
    if 0 <= i < list.len() {
        let m = list[i];
        assert(model_located(m, known));
        lemma_fields_rule_files(FieldRule::Strict, ctx, m, m.fields, 0, false, known);
        lemma_nesting_files(m, m.fields, 0, 1, known);
        lemma_strict_files(ctx, list, i + 1, known);
        let a = fields_diagnostics(FieldRule::Strict, ctx, m, m.fields, 0, false);
        let b = nesting_diagnostics(m, m.fields, 0, 1);
        lemma_files_in_add(a, b, known);
        lemma_files_in_add(a + b, strict_warnings(ctx, list, i + 1), known);
    }
}

/// Whether the places of a tree name known files: those of its models and
/// views, and those of the diagnostics that it holds already.
pub open spec fn tree_located(ast: M3lAstView, known: Seq<Seq<char>>) -> bool {
    &&& models_located(ast.models, known)
    &&& models_located(ast.views, known)
    &&& files_in(ast.errors, known)
    &&& files_in(ast.warnings, known)
}

/// Every diagnostic of a validated tree names a file that the tree names.
pub proof fn lemma_validated_files(ast: M3lAstView, strict: bool, known: Seq<Seq<char>>)
    requires
        tree_located(ast, known),
    ensures
        files_in(validated(ast, strict).errors, known),
        files_in(validated(ast, strict).warnings, known),
{
    let all = models_and_views(ast);
    let ctx = context(ast);
    assert(models_located(all, known)) by {
        assert forall|i: int| 0 <= i < all.len() implies model_located(#[trigger] all[i], known) by {
            if i < ast.models.len() {
                assert(all[i] == ast.models[i]);
            } else {
                assert(all[i] == ast.views[i - ast.models.len()]);
            }
        }
    }
    let e1 = models_diagnostics(FieldRule::Rollup, ctx, all, 0, false);
    let e2 = models_diagnostics(FieldRule::Lookup, ctx, all, 0, false);
    let e3 = source_errors(all, ast.views, 0);
    let e4 = repeated_fields_in(all, 0);
    let e5 = models_diagnostics(FieldRule::Types, ctx, all, 0, true);
    let e6 = relations_diagnostics_in(all, 0);
    lemma_models_rule_files(FieldRule::Rollup, ctx, all, 0, false, known);
    lemma_models_rule_files(FieldRule::Lookup, ctx, all, 0, false, known);
    lemma_source_error_files(all, ast.views, 0, known);
    lemma_repeated_in_files(all, 0, known);
    lemma_models_rule_files(FieldRule::Types, ctx, all, 0, true, known);
    lemma_relations_in_files(all, 0, known);
    lemma_files_in_add(ast.errors, e1, known);
    lemma_files_in_add(ast.errors + e1, e2, known);
    lemma_files_in_add(ast.errors + e1 + e2, e3, known);
    lemma_files_in_add(ast.errors + e1 + e2 + e3, e4, known);
    lemma_files_in_add(ast.errors + e1 + e2 + e3 + e4, e5, known);
    lemma_files_in_add(ast.errors + e1 + e2 + e3 + e4 + e5, e6, known);
    let w1 = models_diagnostics(FieldRule::Deprecated, ctx, all, 0, true);
    let w2 = models_diagnostics(FieldRule::Registry, ctx, all, 0, true);
    let w3 = if strict {
        strict_warnings(ctx, all, 0)
    } else {
        Seq::empty()
    };
    lemma_models_rule_files(FieldRule::Deprecated, ctx, all, 0, true, known);
    lemma_models_rule_files(FieldRule::Registry, ctx, all, 0, true, known);
    if strict {
        lemma_strict_files(ctx, all, 0, known);
    }
    lemma_files_in_add(ast.warnings, w1, known);
    lemma_files_in_add(ast.warnings + w1, w2, known);
    lemma_files_in_add(ast.warnings + w1 + w2, w3, known);
}

/// Whether the places of what a file holds name known files.
pub open spec fn parsed_located(pf: ParsedFileView, known: Seq<Seq<char>>) -> bool {
    &&& known.contains(pf.source)
    &&& models_located(pf.models, known)
    &&& models_located(pf.interfaces, known)
    &&& models_located(pf.views, known)
    &&& forall|i: int| 0 <= i < pf.enums.len() ==> known.contains((#[trigger] pf.enums[i]).source)
}

/// Whether the places of what the files hold name known files.
pub open spec fn all_located(files: Seq<ParsedFileView>, known: Seq<Seq<char>>) -> bool {
    forall|i: int| 0 <= i < files.len() ==> parsed_located(#[trigger] files[i], known)
}

/// Whether the enums name known files.
pub open spec fn enums_located(list: Seq<EnumNodeView>, known: Seq<Seq<char>>) -> bool {
    forall|i: int| 0 <= i < list.len() ==> known.contains((#[trigger] list[i]).source)
}

/// Two lists of located models are located together.
pub proof fn lemma_models_located_add(
    a: Seq<ModelNodeView>,
    b: Seq<ModelNodeView>,
    known: Seq<Seq<char>>,
)
    requires
        models_located(a, known),
        models_located(b, known),
    ensures
        models_located(a + b, known),
{
    assert forall|i: int| 0 <= i < (a + b).len() implies model_located(
        #[trigger] (a + b)[i],
        known,
    ) by {
        if i < a.len() {
            assert((a + b)[i] == a[i]);
        } else {
            assert((a + b)[i] == b[i - a.len()]);
        }
    }
}

/// The elements of located files are located once they are collected.
pub proof fn lemma_collected_located(files: Seq<ParsedFileView>, known: Seq<Seq<char>>)
    requires
        all_located(files, known),
    ensures
        models_located(all_models(files), known),
        models_located(all_interfaces(files), known),
        models_located(all_views(files), known),
        enums_located(all_enums(files), known),
    decreases files.len(),
{
    if files.len() > 0 {
        let rest = files.drop_last();
        let last = files.last();
        assert(parsed_located(last, known));
        assert forall|i: int| 0 <= i < rest.len() implies parsed_located(
            #[trigger] rest[i],
            known,
        ) by {
            assert(rest[i] == files[i]);
        }
        lemma_collected_located(rest, known);
        lemma_models_located_add(all_models(rest), last.models, known);
        lemma_models_located_add(all_interfaces(rest), last.interfaces, known);
        lemma_models_located_add(all_views(rest), last.views, known);
        let a = all_enums(rest);
        let b = last.enums;
        assert forall|i: int| 0 <= i < (a + b).len() implies known.contains(
            (#[trigger] (a + b)[i]).source,
        ) by {
            if i < a.len() {
                assert((a + b)[i] == a[i]);
            } else {
                assert((a + b)[i] == b[i - a.len()]);
            }
        }
    }
}

/// Whether every definition names a known file.
pub open spec fn definitions_located(defs: Seq<DefinitionView>, known: Seq<Seq<char>>) -> bool {
    forall|i: int| 0 <= i < defs.len() ==> known.contains((#[trigger] defs[i]).file)
}

/// The definitions of located files name known files.
pub proof fn lemma_definitions_located(files: Seq<ParsedFileView>, known: Seq<Seq<char>>)
    requires
        all_located(files, known),
    ensures
        definitions_located(definitions(files), known),
{
    lemma_collected_located(files, known);
    let a = model_definitions(all_models(files), ModelType::Model, files);
    let b = enum_definitions(all_enums(files), files);
    let c = model_definitions(all_interfaces(files), ModelType::Interface, files);
    let d = model_definitions(all_views(files), ModelType::View, files);
    let defs = definitions(files);
    assert(defs == a + b + c + d);
    assert forall|i: int| 0 <= i < defs.len() implies known.contains((#[trigger] defs[i]).file) by {
        if i < a.len() {
            assert(defs[i] == a[i]);
            assert(model_located(all_models(files)[i], known));
        } else if i < a.len() + b.len() {
            assert(defs[i] == b[i - a.len()]);
            assert(known.contains(all_enums(files)[i - a.len()].source));
        } else if i < a.len() + b.len() + c.len() {
            assert(defs[i] == c[i - a.len() - b.len()]);
            assert(model_located(all_interfaces(files)[i - a.len() - b.len()], known));
        } else {
            assert(defs[i] == d[i - a.len() - b.len() - c.len()]);
            assert(model_located(all_views(files)[i - a.len() - b.len() - c.len()], known));
        }
    }
}

/// The errors for duplicate names name known files.
pub proof fn lemma_duplicate_files(
    defs: Seq<DefinitionView>,
    i: int,
    acc: Seq<DiagnosticView>,
    known: Seq<Seq<char>>,
)
    requires
        definitions_located(defs, known),
        files_in(acc, known),
    ensures
        files_in(duplicate_errors_from(defs, i, acc), known),
    decreases defs.len() - i,
{
    if 0 <= i < defs.len() {
        let first = def_index(defs, defs[i].name, 0);
        if 0 <= first < i {
            let e = duplicate_error(defs, i, first);
            assert(known.contains(defs[i].file));
            lemma_files_in_push(acc, e, known);
            lemma_duplicate_files(defs, i + 1, acc.push(e), known);
        } else {
            lemma_duplicate_files(defs, i + 1, acc, known);
        }
    }
}

/// The errors for ambiguous names name known files.
pub proof fn lemma_ambiguity_files(
    defs: Seq<DefinitionView>,
    i: int,
    acc: Seq<DiagnosticView>,
    known: Seq<Seq<char>>,
)
    requires
        definitions_located(defs, known),
        files_in(acc, known),
    ensures
        files_in(ambiguity_errors_from(defs, i, acc), known),
    decreases defs.len() - i,
{
    if 0 <= i < defs.len() {
        let name = defs[i].name;
        let second = def_index(defs, name, i + 1);
        let spaces = namespaces_from(defs, name, 0, Seq::empty());
        if def_index(defs, name, 0) == i && 0 <= second < defs.len() && spaces.len() >= 2 {
            let e = ambiguity_error(defs, second, spaces);
            assert(known.contains(defs[second].file));
            lemma_files_in_push(acc, e, known);
            lemma_ambiguity_files(defs, i + 1, acc.push(e), known);
        } else {
            lemma_ambiguity_files(defs, i + 1, acc, known);
        }
    }
}

/// Located fields stay located when located ones are added to them.
pub proof fn lemma_with_inherited_located(
    inherited: Seq<FieldNodeView>,
    more: Seq<FieldNodeView>,
    k: int,
    known: Seq<Seq<char>>,
)
    requires
        fields_located(inherited, known),
        fields_located(more, known),
    ensures
        fields_located(with_inherited(inherited, more, k), known),
    decreases more.len() - k,
{
    if 0 <= k < more.len() {
        if field_index(inherited, more[k].name, 0) < inherited.len() {
            lemma_with_inherited_located(inherited, more, k + 1, known);
        } else {
            let next = inherited.push(more[k]);
            assert forall|i: int| 0 <= i < next.len() implies field_located(
                #[trigger] next[i],
                known,
            ) by {
                if i < inherited.len() {
                    assert(next[i] == inherited[i]);
                } else {
                    assert(next[i] == more[k]);
                }
            }
            lemma_with_inherited_located(next, more, k + 1, known);
        }
    }
}

/// The parent that a name stands for is one of the models or interfaces.
pub proof fn lemma_parent_located(
    models: Seq<ModelNodeView>,
    interfaces: Seq<ModelNodeView>,
    name: Seq<char>,
    known: Seq<Seq<char>>,
)
    requires
        models_located(models, known),
        models_located(interfaces, known),
    ensures
        parent_index(models, interfaces, name) matches Some(p) ==> 0 <= p < models.len()
            + interfaces.len() && model_located(parent_node(models, interfaces, p), known),
{
    lemma_model_index(models, name, models.len() as int);
    lemma_model_index(interfaces, name, interfaces.len() as int);
    match parent_index(models, interfaces, name) {
        Some(p) => {
            if p < models.len() {
                assert(model_located(models[p], known));
            } else {
                assert(model_located(interfaces[p - models.len()], known));
            }
        },
        None => {},
    }
}

/// What a model inherits through one parent is located, and the errors
/// found on the way name the file of the model.
pub proof fn lemma_inherit_from_located(
    models: Seq<ModelNodeView>,
    interfaces: Seq<ModelNodeView>,
    defs: Seq<DefinitionView>,
    child: ModelNodeView,
    name: Seq<char>,
    visiting: Seq<bool>,
    st: (Seq<FieldNodeView>, Seq<bool>, Seq<DiagnosticView>),
    known: Seq<Seq<char>>,
)
    requires
        models_located(models, known),
        models_located(interfaces, known),
        known.contains(child.source),
        fields_located(st.0, known),
        files_in(st.2, known),
    ensures
        fields_located(
            inherit_from(models, interfaces, defs, child, name, visiting, st).0,
            known,
        ),
        files_in(inherit_from(models, interfaces, defs, child, name, visiting, st).2, known),
    decreases unvisited(visiting), 0nat,
{
    lemma_parent_located(models, interfaces, name, known);
    match parent_index(models, interfaces, name) {
        None => {
            if !(def_index(defs, name, 0) < defs.len()) {
                lemma_files_in_push(st.2, unresolved_error(child, name), known);
            }
        },
        Some(p) => {
            if 0 <= p < visiting.len() && p < st.1.len() && p < models.len() + interfaces.len()
                && !visiting[p] && !st.1[p] && unvisited(visiting.update(p, true)) < unvisited(
                visiting,
            ) {
                let parent = parent_node(models, interfaces, p);
                lemma_inherit_all_located(
                    models,
                    interfaces,
                    defs,
                    child,
                    parent.inherits,
                    0,
                    visiting.update(p, true),
                    st,
                    known,
                );
                let r = inherit_all(
                    models,
                    interfaces,
                    defs,
                    child,
                    parent.inherits,
                    0,
                    visiting.update(p, true),
                    st,
                );
                if p < r.1.len() {
                    lemma_with_inherited_located(r.0, parent.fields, 0, known);
                }
            }
        },
    }
}

/// What a model inherits through a list of parents is located.
pub proof fn lemma_inherit_all_located(
    models: Seq<ModelNodeView>,
    interfaces: Seq<ModelNodeView>,
    defs: Seq<DefinitionView>,
    child: ModelNodeView,
    names: Seq<Seq<char>>,
    k: int,
    visiting: Seq<bool>,
    st: (Seq<FieldNodeView>, Seq<bool>, Seq<DiagnosticView>),
    known: Seq<Seq<char>>,
)
    requires
        models_located(models, known),
        models_located(interfaces, known),
        known.contains(child.source),
        fields_located(st.0, known),
        files_in(st.2, known),
    ensures
        fields_located(
            inherit_all(models, interfaces, defs, child, names, k, visiting, st).0,
            known,
        ),
        files_in(inherit_all(models, interfaces, defs, child, names, k, visiting, st).2, known),
    decreases unvisited(visiting), 1 + names.len() - k,
{
    if 0 <= k < names.len() {
        lemma_inherit_from_located(models, interfaces, defs, child, names[k], visiting, st, known);
        lemma_inherit_all_located(
            models,
            interfaces,
            defs,
            child,
            names,
            k + 1,
            visiting,
            inherit_from(models, interfaces, defs, child, names[k], visiting, st),
            known,
        );
    }
}

/// The inherited fields that are kept are located.
pub proof fn lemma_kept_located(
    inherited: Seq<FieldNodeView>,
    own: Seq<FieldNodeView>,
    k: int,
    acc: Seq<FieldNodeView>,
    known: Seq<Seq<char>>,
)
    requires
        fields_located(inherited, known),
        fields_located(acc, known),
    ensures
        fields_located(kept_from(inherited, own, k, acc), known),
    decreases inherited.len() - k,
{
    if 0 <= k < inherited.len() {
        if crate::resolver::overrides(own, inherited[k].name, 0) {
            lemma_kept_located(inherited, own, k + 1, acc, known);
        } else {
            let next = acc.push(inherited[k]);
            assert forall|i: int| 0 <= i < next.len() implies field_located(
                #[trigger] next[i],
                known,
            ) by {
                if i < acc.len() {
                    assert(next[i] == acc[i]);
                } else {
                    assert(next[i] == inherited[k]);
                }
            }
            lemma_kept_located(inherited, own, k + 1, next, known);
        }
    }
}

/// Resolving the inheritance of one element of a list keeps the list
/// located and adds errors that name known files.
pub proof fn lemma_resolve_in_located(
    list: Seq<ModelNodeView>,
    models: Seq<ModelNodeView>,
    interfaces: Seq<ModelNodeView>,
    defs: Seq<DefinitionView>,
    i: int,
    errors: Seq<DiagnosticView>,
    known: Seq<Seq<char>>,
)
    requires
        0 <= i < list.len(),
        models_located(list, known),
        models_located(models, known),
        models_located(interfaces, known),
        files_in(errors, known),
    ensures
        models_located(resolve_in(list, models, interfaces, defs, i, errors).0, known),
        files_in(resolve_in(list, models, interfaces, defs, i, errors).1, known),
        resolve_in(list, models, interfaces, defs, i, errors).0.len() == list.len(),
{
    let m = list[i];
    assert(model_located(m, known));
    if m.inherits.len() > 0 {
        let none = Seq::new(models.len() + interfaces.len(), |j: int| false);
        let start = (Seq::<FieldNodeView>::empty(), none, errors);
        lemma_inherit_all_located(models, interfaces, defs, m, m.inherits, 0, none, start, known);
        let r = inherit_all(models, interfaces, defs, m, m.inherits, 0, none, start);
        lemma_kept_located(r.0, m.fields, 0, Seq::empty(), known);
        let kept = kept_from(r.0, m.fields, 0, Seq::empty());
        let fields = kept + m.fields;
        assert forall|k: int| 0 <= k < fields.len() implies field_located(
            #[trigger] fields[k],
            known,
        ) by {
            if k < kept.len() {
                assert(fields[k] == kept[k]);
            } else {
                assert(fields[k] == m.fields[k - kept.len()]);
            }
        }
        let updated = ModelNodeView { fields: fields, ..m };
        assert(model_located(updated, known)) by {
            assert forall|k: int| 0 <= k < updated.sections.relations.len() implies known.contains(
                relation_file(updated, #[trigger] updated.sections.relations[k]),
            ) by {
                assert(relation_file(updated, updated.sections.relations[k]) == relation_file(
                    m,
                    m.sections.relations[k],
                ));
            }
        }
        let after = list.update(i, updated);
        assert forall|j: int| 0 <= j < after.len() implies model_located(
            #[trigger] after[j],
            known,
        ) by {
            if j != i {
                assert(after[j] == list[j]);
            }
        }
    }
}

/// Resolving the inheritance of one model keeps the models located and
/// adds errors that name known files.
pub proof fn lemma_resolve_model_located(
    models: Seq<ModelNodeView>,
    interfaces: Seq<ModelNodeView>,
    defs: Seq<DefinitionView>,
    i: int,
    errors: Seq<DiagnosticView>,
    known: Seq<Seq<char>>,
)
    requires
        0 <= i < models.len(),
        models_located(models, known),
        models_located(interfaces, known),
        files_in(errors, known),
    ensures
        models_located(resolve_model(models, interfaces, defs, i, errors).0, known),
        files_in(resolve_model(models, interfaces, defs, i, errors).1, known),
        resolve_model(models, interfaces, defs, i, errors).0.len() == models.len(),
{
    lemma_resolve_in_located(models, models, interfaces, defs, i, errors, known);
}

/// Resolving the inheritance of the views keeps them located.
pub proof fn lemma_resolve_views_located(
    views: Seq<ModelNodeView>,
    models: Seq<ModelNodeView>,
    interfaces: Seq<ModelNodeView>,
    defs: Seq<DefinitionView>,
    i: int,
    errors: Seq<DiagnosticView>,
    known: Seq<Seq<char>>,
)
    requires
        0 <= i,
        models_located(views, known),
        models_located(models, known),
        models_located(interfaces, known),
        files_in(errors, known),
    ensures
        models_located(resolve_views_from(views, models, interfaces, defs, i, errors).0, known),
        files_in(resolve_views_from(views, models, interfaces, defs, i, errors).1, known),
    decreases views.len() - i,
{
    if i < views.len() {
        lemma_resolve_in_located(views, models, interfaces, defs, i, errors, known);
        let r = resolve_in(views, models, interfaces, defs, i, errors);
        lemma_resolve_views_located(r.0, models, interfaces, defs, i + 1, r.1, known);
    }
}

/// Resolving the inheritance of the models keeps them located.
pub proof fn lemma_resolve_models_located(
    models: Seq<ModelNodeView>,
    interfaces: Seq<ModelNodeView>,
    defs: Seq<DefinitionView>,
    i: int,
    errors: Seq<DiagnosticView>,
    known: Seq<Seq<char>>,
)
    requires
        0 <= i,
        models_located(models, known),
        models_located(interfaces, known),
        files_in(errors, known),
    ensures
        models_located(resolve_models_from(models, interfaces, defs, i, errors).0, known),
        files_in(resolve_models_from(models, interfaces, defs, i, errors).1, known),
    decreases models.len() - i,
{
    if i < models.len() {
        lemma_resolve_model_located(models, interfaces, defs, i, errors, known);
        let r = resolve_model(models, interfaces, defs, i, errors);
        lemma_resolve_models_located(r.0, interfaces, defs, i + 1, r.1, known);
    }
}

/// The errors for repeated field names of one model name known files.
pub proof fn lemma_duplicate_field_files(
    m: ModelNodeView,
    k: int,
    acc: Seq<DiagnosticView>,
    known: Seq<Seq<char>>,
)
    requires
        model_located(m, known),
        files_in(acc, known),
    ensures
        files_in(duplicate_fields_from(m, k, acc), known),
    decreases m.fields.len() - k,
{
    if 0 <= k < m.fields.len() {
        let first = field_index(m.fields, m.fields[k].name, 0);
        assert(field_located(m.fields[k], known));
        if 0 <= first < k {
            lemma_files_in_push(acc, duplicate_field_error(m, k, first), known);
            lemma_duplicate_field_files(m, k + 1, acc.push(duplicate_field_error(m, k, first)), known);
        } else {
            lemma_duplicate_field_files(m, k + 1, acc, known);
        }
    }
}

/// The errors for repeated field names of a list of models name known files.
pub proof fn lemma_duplicate_fields_files(
    list: Seq<ModelNodeView>,
    i: int,
    acc: Seq<DiagnosticView>,
    known: Seq<Seq<char>>,
)
    requires
        models_located(list, known),
        files_in(acc, known),
    ensures
        files_in(duplicate_fields_in(list, i, acc), known),
    decreases list.len() - i,
{
    if 0 <= i < list.len() {
        assert(model_located(list[i], known));
        lemma_duplicate_field_files(list[i], 0, acc, known);
        lemma_duplicate_fields_files(list, i + 1, duplicate_fields_from(list[i], 0, acc), known);
    }
}

/// Whether the path of every file of an import graph is known.
pub open spec fn graph_located(
    files: Seq<(Seq<char>, Seq<Seq<char>>)>,
    known: Seq<Seq<char>>,
) -> bool {
    forall|i: int| 0 <= i < files.len() ==> known.contains((#[trigger] files[i]).0)
}

/// The errors of a walk name files of the graph.
pub proof fn lemma_visit_files(
    files: Seq<(Seq<char>, Seq<Seq<char>>)>,
    idx: int,
    visited: Seq<bool>,
    stack: Seq<Seq<char>>,
    errors: Seq<DiagnosticView>,
    known: Seq<Seq<char>>,
)
    requires
        graph_located(files, known),
        files_in(errors, known),
    ensures
        files_in(visit(files, idx, visited, stack, errors).1, known),
    decreases unvisited(visited), 0nat,
{
    if 0 <= idx < files.len() && visited.len() == files.len() && !visited[idx] && unvisited(
        visited.update(idx, true),
    ) < unvisited(visited) {
        lemma_visit_imports_files(
            files,
            idx,
            0,
            visited.update(idx, true),
            stack.push(files[idx].0),
            errors,
            known,
        );
    }
}

/// The errors of a walk over the imports of a file name files of the graph.
pub proof fn lemma_visit_imports_files(
    files: Seq<(Seq<char>, Seq<Seq<char>>)>,
    idx: int,
    k: int,
    visited: Seq<bool>,
    stack: Seq<Seq<char>>,
    errors: Seq<DiagnosticView>,
    known: Seq<Seq<char>>,
)
    requires
        graph_located(files, known),
        files_in(errors, known),
    ensures
        files_in(visit_imports(files, idx, k, visited, stack, errors).1, known),
    decreases unvisited(visited), 1 + files[idx].1.len() - k,
{
    if !(idx < 0 || idx >= files.len() || k < 0 || k >= files[idx].1.len()) {
        let name = files[idx].1[k];
        match crate::imports::source_index(files, name, files.len() as int) {
            Some(j) => {
                if 0 <= j < visited.len() && !visited[j] {
                    lemma_visit_files(files, j, visited, stack, errors, known);
                    let r = visit(files, j, visited, stack, errors);
                    if unvisited(r.0) <= unvisited(visited) {
                        lemma_visit_imports_files(files, idx, k + 1, r.0, stack, r.1, known);
                    }
                } else if stack.contains(name) {
                    assert(known.contains(files[idx].0));
                    lemma_files_in_push(errors, cycle_error(files[idx].0, stack, name), known);
                    lemma_visit_imports_files(
                        files,
                        idx,
                        k + 1,
                        visited,
                        stack,
                        errors.push(cycle_error(files[idx].0, stack, name)),
                        known,
                    );
                } else {
                    lemma_visit_imports_files(files, idx, k + 1, visited, stack, errors, known);
                }
            },
            None => {
                lemma_visit_imports_files(files, idx, k + 1, visited, stack, errors, known);
            },
        }
    }
}

/// The errors for circular imports name files of the graph.
pub proof fn lemma_circular_files(
    files: Seq<(Seq<char>, Seq<Seq<char>>)>,
    i: int,
    visited: Seq<bool>,
    errors: Seq<DiagnosticView>,
    known: Seq<Seq<char>>,
)
    requires
        graph_located(files, known),
        files_in(errors, known),
    ensures
        files_in(circular_from(files, i, visited, errors), known),
    decreases files.len() - i,
{
    if 0 <= i < files.len() {
        match crate::imports::source_index(files, files[i].0, files.len() as int) {
            Some(j) => {
                if 0 <= j < visited.len() && !visited[j] {
                    lemma_visit_files(files, j, visited, Seq::empty(), errors, known);
                    let r = visit(files, j, visited, Seq::empty(), errors);
                    lemma_circular_files(files, i + 1, r.0, r.1, known);
                } else {
                    lemma_circular_files(files, i + 1, visited, errors, known);
                }
            },
            None => {
                lemma_circular_files(files, i + 1, visited, errors, known);
            },
        }
    }
}

/// Marking the registered attributes keeps the models located.
pub proof fn lemma_tag_located(list: Seq<ModelNodeView>, names: Seq<Seq<char>>, known: Seq<Seq<char>>)
    requires
        models_located(list, known),
    ensures
        models_located(tag_models(list, names), known),
{
    let tagged = tag_models(list, names);
    assert forall|i: int| 0 <= i < tagged.len() implies model_located(
        #[trigger] tagged[i],
        known,
    ) by {
        let m = list[i];
        let t = tagged[i];
        assert(model_located(m, known));
        assert(t == tag_model(m, names));
        assert forall|k: int| 0 <= k < t.fields.len() implies field_located(
            #[trigger] t.fields[k],
            known,
        ) by {
            assert(field_located(m.fields[k], known));
            assert(t.fields[k].loc == m.fields[k].loc);
            assert(t.fields[k].fields == m.fields[k].fields);
        }
        assert forall|k: int| 0 <= k < t.sections.relations.len() implies known.contains(
            relation_file(t, #[trigger] t.sections.relations[k]),
        ) by {
            assert(relation_file(t, t.sections.relations[k]) == relation_file(
                m,
                m.sections.relations[k],
            ));
        }
    }
}

/// The places of a resolved tree, and every error of the resolver, name
/// files that the parsed files name.
pub proof fn lemma_resolved_located(
    files: Seq<ParsedFileView>,
    project: Option<ProjectInfoView>,
    known: Seq<Seq<char>>,
)
    requires
        all_located(files, known),
    ensures
        tree_located(resolved(files, project), known),
        models_located(resolved(files, project).interfaces, known),
{
    let defs = definitions(files);
    let names = registered_names(all_registry(files));
    lemma_collected_located(files, known);
    lemma_definitions_located(files, known);
    lemma_duplicate_files(defs, 0, Seq::empty(), known);
    lemma_ambiguity_files(defs, 0, duplicate_errors_from(defs, 0, Seq::empty()), known);
    lemma_resolve_models_located(
        all_models(files),
        all_interfaces(files),
        defs,
        0,
        name_errors(defs),
        known,
    );
    let r = inherited_models(files);
    lemma_resolve_views_located(all_views(files), r.0, all_interfaces(files), defs, 0, r.1, known);
    let v = inherited_views(files);
    lemma_duplicate_fields_files(r.0, 0, v.1, known);
    let e1 = duplicate_fields_in(r.0, 0, v.1);
    lemma_duplicate_fields_files(v.0, 0, e1, known);
    let e2 = duplicate_fields_in(v.0, 0, e1);
    let graph = import_graph(files);
    assert(graph_located(graph, known)) by {
        assert forall|i: int| 0 <= i < graph.len() implies known.contains(
            (#[trigger] graph[i]).0,
        ) by {
            assert(parsed_located(files[i], known));
        }
    }
    lemma_circular_files(graph, 0, Seq::new(graph.len(), |i: int| false), Seq::empty(), known);
    lemma_files_in_add(e2, circular_imports(graph), known);
    lemma_tag_located(r.0, names, known);
    lemma_tag_located(all_interfaces(files), names, known);
    lemma_tag_located(inherited_views(files).0, names, known);
}

} // verus!
