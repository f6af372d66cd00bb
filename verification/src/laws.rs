//! What holds of the library for every input: a model with two fields of
//! one name has an error that says so; every diagnostic names a file that
//! the caller gave; and a field has the definition of its kind and no
//! other. The severities of diagnostics and the circles of imports have
//! modules of their own.

use vstd::prelude::*;
use crate::resolver::{
    duplicate_field_error, duplicate_fields_from, duplicate_fields_in, field_index,
    inherited_models, inherited_views, lemma_field_index, resolved, tag_model, registered_names,
    all_registry,
};
use crate::kinds::{
    lemma_parsed_matches, lemma_resolved_matches, models_match, parsed_matches,
};
use crate::lexer::lexed;
use crate::locations::{
    all_located, field_located, files_in, lemma_resolved_located, lemma_validated_files,
    model_located, models_located, parsed_located,
};
use crate::parser::parsed;
use crate::parser_laws::lemma_parsed_located;
use crate::pipeline::{parsed_files, parsed_text};
use crate::types::{
    DiagnosticView, FieldNodeView, M3lFileView, ModelNodeView, ParsedFileView, ProjectInfoView,
};
use crate::validator::{relation_file, validated};

verus! {

/// Whether no two of the fields have the same name.
pub open spec fn distinct_names(fields: Seq<FieldNodeView>) -> bool {
    forall|a: int, b: int| 0 <= a < b < fields.len() ==> fields[a].name != fields[b].name
}

/// Whether one of the errors says that a field of `m` has the name of an
/// earlier field of `m`.
pub open spec fn reports_duplicate_field(errors: Seq<DiagnosticView>, m: ModelNodeView) -> bool {
    exists|k: int, first: int|
        0 <= first < k < m.fields.len() && m.fields[first].name == m.fields[k].name
            && errors.contains(#[trigger] duplicate_field_error(m, k, first))
}

/// Fields that are not distinct hold one whose name stands earlier.
pub proof fn lemma_repeated_name(fields: Seq<FieldNodeView>)
    requires
        !distinct_names(fields),
    ensures
        exists|k: int|
            0 <= k < fields.len() && 0 <= #[trigger] field_index(fields, fields[k].name, 0) < k,
{
    let (a, b) = choose|a: int, b: int|
        0 <= a < b < fields.len() && fields[a].name == fields[b].name;
    lemma_field_index(fields, fields[b].name, 0);
    assert(0 <= field_index(fields, fields[b].name, 0) < b);
}

/// An error that a list holds is still there after one more is added.
pub proof fn lemma_push_keeps(acc: Seq<DiagnosticView>, x: DiagnosticView, e: DiagnosticView)
    requires
        acc.contains(e),
    ensures
        acc.push(x).contains(e),
{
    let i = choose|i: int| 0 <= i < acc.len() && acc[i] == e;
    assert(acc.push(x)[i] == e);
}

/// The check of one model keeps the errors it starts from.
pub proof fn lemma_fields_kept(
    m: ModelNodeView,
    from: int,
    acc: Seq<DiagnosticView>,
    e: DiagnosticView,
)
    requires
        0 <= from,
        acc.contains(e),
    ensures
        duplicate_fields_from(m, from, acc).contains(e),
    decreases m.fields.len() - from,
{
    if from < m.fields.len() {
        let first = field_index(m.fields, m.fields[from].name, 0);
        if 0 <= first < from {
            let e0 = duplicate_field_error(m, from, first);
            lemma_push_keeps(acc, e0, e);
            lemma_fields_kept(m, from + 1, acc.push(e0), e);
        } else {
            lemma_fields_kept(m, from + 1, acc, e);
        }
    }
}

/// The check of one model adds an error for the field at `k`, whose name
/// stands earlier.
pub proof fn lemma_field_reported(m: ModelNodeView, from: int, acc: Seq<DiagnosticView>, k: int)
    requires
        0 <= from <= k < m.fields.len(),
        0 <= field_index(m.fields, m.fields[k].name, 0) < k,
    ensures
        duplicate_fields_from(m, from, acc).contains(
            duplicate_field_error(m, k, field_index(m.fields, m.fields[k].name, 0)),
        ),
    decreases m.fields.len() - from,
{
    let first = field_index(m.fields, m.fields[from].name, 0);
    if from == k {
        let e0 = duplicate_field_error(m, k, first);
        let next = acc.push(e0);
        assert(next[acc.len() as int] == e0);
        lemma_fields_kept(m, from + 1, next, e0);
    } else if 0 <= first < from {
        lemma_field_reported(m, from + 1, acc.push(duplicate_field_error(m, from, first)), k);
    } else {
        lemma_field_reported(m, from + 1, acc, k);
    }
}

/// The check of a list of models keeps the errors it starts from.
pub proof fn lemma_models_kept(
    list: Seq<ModelNodeView>,
    from: int,
    acc: Seq<DiagnosticView>,
    e: DiagnosticView,
)
    requires
        0 <= from,
        acc.contains(e),
    ensures
        duplicate_fields_in(list, from, acc).contains(e),
    decreases list.len() - from,
{
    if from < list.len() {
        lemma_fields_kept(list[from], 0, acc, e);
        lemma_models_kept(list, from + 1, duplicate_fields_from(list[from], 0, acc), e);
    }
}

/// The check of a list of models adds an error for the field at `k` of the
/// model at `i`, whose name stands earlier.
pub proof fn lemma_model_reported(
    list: Seq<ModelNodeView>,
    from: int,
    acc: Seq<DiagnosticView>,
    i: int,
    k: int,
)
    requires
        0 <= from <= i < list.len(),
        0 <= k < list[i].fields.len(),
        0 <= field_index(list[i].fields, list[i].fields[k].name, 0) < k,
    ensures
        duplicate_fields_in(list, from, acc).contains(
            duplicate_field_error(
                list[i],
                k,
                field_index(list[i].fields, list[i].fields[k].name, 0),
            ),
        ),
    decreases list.len() - from,
{
    let next = duplicate_fields_from(list[from], 0, acc);
    if from == i {
        lemma_field_reported(list[i], 0, acc, k);
        lemma_models_kept(
            list,
            from + 1,
            next,
            duplicate_field_error(
                list[i],
                k,
                field_index(list[i].fields, list[i].fields[k].name, 0),
            ),
        );
    } else {
        lemma_model_reported(list, from + 1, next, i, k);
    }
}

/// Marking the registered attributes changes neither the names of the
/// fields nor the error for a repeated name.
pub proof fn lemma_tag_keeps_names(m: ModelNodeView, names: Seq<Seq<char>>)
    ensures
        tag_model(m, names).fields.len() == m.fields.len(),
        forall|k: int|
            0 <= k < m.fields.len() ==> (#[trigger] tag_model(m, names).fields[k]).name
                == m.fields[k].name,
        forall|k: int, first: int|
            0 <= first < m.fields.len() && 0 <= k < m.fields.len() ==> #[trigger] duplicate_field_error(
                tag_model(m, names),
                k,
                first,
            ) == duplicate_field_error(m, k, first),
{
}

/// Every model and every view of a resolved tree has fields of distinct
/// names, or the errors of the tree hold one that reports a repeated field
/// name in it.
pub proof fn lemma_duplicate_fields_reported(
    files: Seq<ParsedFileView>,
    project: Option<ProjectInfoView>,
)
    ensures
        forall|i: int|
            0 <= i < resolved(files, project).models.len() ==> distinct_names(
                (#[trigger] resolved(files, project).models[i]).fields,
            ) || reports_duplicate_field(
                resolved(files, project).errors,
                resolved(files, project).models[i],
            ),
        forall|i: int|
            0 <= i < resolved(files, project).views.len() ==> distinct_names(
                (#[trigger] resolved(files, project).views[i]).fields,
            ) || reports_duplicate_field(
                resolved(files, project).errors,
                resolved(files, project).views[i],
            ),
{
    let ast = resolved(files, project);
    let names = registered_names(all_registry(files));
    let models = inherited_models(files).0;
    let views = inherited_views(files).0;
    let after_models = duplicate_fields_in(models, 0, inherited_views(files).1);
    let after_views = duplicate_fields_in(views, 0, after_models);
    assert forall|e: DiagnosticView| after_views.contains(e) implies ast.errors.contains(e) by {
        let j = choose|j: int| 0 <= j < after_views.len() && after_views[j] == e;
        assert(ast.errors[j] == e);
    }
    assert forall|i: int| 0 <= i < ast.models.len() implies distinct_names(
        (#[trigger] ast.models[i]).fields,
    ) || reports_duplicate_field(ast.errors, ast.models[i]) by {
        let m = models[i];
        let t = ast.models[i];
        assert(t == tag_model(m, names));
        lemma_tag_keeps_names(m, names);
        if !distinct_names(t.fields) {
            lemma_repeated_name(t.fields);
            let k = choose|k: int|
                0 <= k < t.fields.len() && 0 <= #[trigger] field_index(
                    t.fields,
                    t.fields[k].name,
                    0,
                ) < k;
            lemma_same_index(t.fields, m.fields, t.fields[k].name, 0);
            let first = field_index(m.fields, m.fields[k].name, 0);
            lemma_field_index(m.fields, m.fields[k].name, 0);
            let e = duplicate_field_error(m, k, first);
            lemma_model_reported(models, 0, inherited_views(files).1, i, k);
            lemma_models_kept(views, 0, after_models, e);
            assert(after_views.contains(e));
            assert(ast.errors.contains(e));
            assert(duplicate_field_error(t, k, first) == e);
            assert(t.fields[first].name == t.fields[k].name);
        }
    }
    assert forall|i: int| 0 <= i < ast.views.len() implies distinct_names(
        (#[trigger] ast.views[i]).fields,
    ) || reports_duplicate_field(ast.errors, ast.views[i]) by {
        let m = views[i];
        let t = ast.views[i];
        assert(t == tag_model(m, names));
        lemma_tag_keeps_names(m, names);
        if !distinct_names(t.fields) {
            lemma_repeated_name(t.fields);
            let k = choose|k: int|
                0 <= k < t.fields.len() && 0 <= #[trigger] field_index(
                    t.fields,
                    t.fields[k].name,
                    0,
                ) < k;
            lemma_same_index(t.fields, m.fields, t.fields[k].name, 0);
            let first = field_index(m.fields, m.fields[k].name, 0);
            lemma_field_index(m.fields, m.fields[k].name, 0);
            let e = duplicate_field_error(m, k, first);
            lemma_model_reported(views, 0, after_models, i, k);
            assert(after_views.contains(e));
            assert(ast.errors.contains(e));
            assert(duplicate_field_error(t, k, first) == e);
            assert(t.fields[first].name == t.fields[k].name);
        }
    }
}

/// Two lists of fields with the same names, place by place, have a name at
/// the same first place.
pub proof fn lemma_same_index(
    a: Seq<FieldNodeView>,
    b: Seq<FieldNodeView>,
    name: Seq<char>,
    from: int,
)
    requires
        a.len() == b.len(),
        forall|k: int| 0 <= k < a.len() ==> (#[trigger] a[k]).name == b[k].name,
    ensures
        field_index(a, name, from) == field_index(b, name, from),
    decreases a.len() - from,
{
    if 0 <= from < a.len() {
        assert(a[from].name == b[from].name);
        if a[from].name != name {
            lemma_same_index(a, b, name, from + 1);
        }
    }
}

/// The paths of the files, in order.
pub open spec fn paths_of(files: Seq<M3lFileView>) -> Seq<Seq<char>> {
    Seq::new(files.len(), |i: int| files[i].path)
}

/// A field whose places name one of the known files names one of more known files.
pub proof fn lemma_field_located_more(
    f: FieldNodeView,
    known: Seq<Seq<char>>,
    more: Seq<Seq<char>>,
)
    requires
        field_located(f, known),
        forall|x: Seq<char>| known.contains(x) ==> more.contains(x),
    ensures
        field_located(f, more),
    decreases f,
{
    match f.fields {
        Some(sub) => {
            assert forall|i: int| 0 <= i < sub.len() implies field_located(
                #[trigger] sub[i],
                more,
            ) by {
                assert(field_located(sub[i], known));
                lemma_field_located_more(sub[i], known, more);
            }
        },
        None => {},
    }
}

/// Models whose places name one of the known files name one of more known files.
pub proof fn lemma_models_located_more(
    list: Seq<ModelNodeView>,
    known: Seq<Seq<char>>,
    more: Seq<Seq<char>>,
)
    requires
        models_located(list, known),
        forall|x: Seq<char>| known.contains(x) ==> more.contains(x),
    ensures
        models_located(list, more),
{
    assert forall|i: int| 0 <= i < list.len() implies model_located(#[trigger] list[i], more) by {
        let m = list[i];
        assert(model_located(m, known));
        assert forall|k: int| 0 <= k < m.fields.len() implies field_located(
            #[trigger] m.fields[k],
            more,
        ) by {
            assert(field_located(m.fields[k], known));
            lemma_field_located_more(m.fields[k], known, more);
        }
        assert forall|k: int| 0 <= k < m.sections.relations.len() implies more.contains(
            relation_file(m, #[trigger] m.sections.relations[k]),
        ) by {
            assert(known.contains(relation_file(m, m.sections.relations[k])));
        }
    }
}

/// The places in the files that are parsed name the paths of the files.
pub proof fn lemma_parsed_files_located(files: Seq<M3lFileView>)
    ensures
        all_located(parsed_files(files), paths_of(files)),
{
    let paths = paths_of(files);
    let all = parsed_files(files);
    assert forall|i: int| 0 <= i < all.len() implies parsed_located(#[trigger] all[i], paths) by {
        let file = files[i].path;
        let pf = all[i];
        assert(pf == parsed(lexed(files[i].content), file));
        lemma_parsed_located(lexed(files[i].content), file);
        assert(paths[i] == file);
        assert forall|x: Seq<char>| seq![file].contains(x) implies paths.contains(x) by {
            assert(x == file);
        }
        lemma_models_located_more(pf.models, seq![file], paths);
        lemma_models_located_more(pf.interfaces, seq![file], paths);
        lemma_models_located_more(pf.views, seq![file], paths);
        assert forall|k: int| 0 <= k < pf.enums.len() implies paths.contains(
            (#[trigger] pf.enums[k]).source,
        ) by {
            assert(seq![file].contains(pf.enums[k].source));
        }
    }
}

/// Every diagnostic names a file that the caller gave: the errors of the
/// resolver, and the errors and warnings of the validator, each name the
/// path of one of the files that were parsed.
pub proof fn lemma_diagnostic_files(
    files: Seq<M3lFileView>,
    project: Option<ProjectInfoView>,
    strict: bool,
)
    ensures
        files_in(resolved(parsed_files(files), project).errors, paths_of(files)),
        files_in(
            validated(resolved(parsed_files(files), project), strict).errors,
            paths_of(files),
        ),
        files_in(
            validated(resolved(parsed_files(files), project), strict).warnings,
            paths_of(files),
        ),
{
    lemma_parsed_files_located(files);
    lemma_resolved_located(parsed_files(files), project, paths_of(files));
    lemma_validated_files(resolved(parsed_files(files), project), strict, paths_of(files));
}

/// Every diagnostic of one text that is parsed, resolved and validated
/// under the name `filename` has `filename` as its file.
pub proof fn lemma_diagnostic_file(content: Seq<char>, filename: Seq<char>, strict: bool)
    ensures
        forall|i: int|
            0 <= i < validated(
                resolved(seq![parsed_text(content, filename)], None),
                strict,
            ).errors.len() ==> (#[trigger] validated(
                resolved(seq![parsed_text(content, filename)], None),
                strict,
            ).errors[i]).file == filename,
        forall|i: int|
            0 <= i < validated(
                resolved(seq![parsed_text(content, filename)], None),
                strict,
            ).warnings.len() ==> (#[trigger] validated(
                resolved(seq![parsed_text(content, filename)], None),
                strict,
            ).warnings[i]).file == filename,
{
    let pf = parsed_text(content, filename);
    let known = seq![filename];
    lemma_parsed_located(lexed(content), filename);
    assert(all_located(seq![pf], known)) by {
        assert forall|i: int| 0 <= i < seq![pf].len() implies parsed_located(
            #[trigger] seq![pf][i],
            known,
        ) by {
            assert(seq![pf][i] == pf);
        }
    }
    lemma_resolved_located(seq![pf], None, known);
    let ast = resolved(seq![pf], None);
    lemma_validated_files(ast, strict, known);
    let r = validated(ast, strict);
    assert forall|i: int| 0 <= i < r.errors.len() implies (#[trigger] r.errors[i]).file
        == filename by {
        assert(known.contains(r.errors[i].file));
    }
    assert forall|i: int| 0 <= i < r.warnings.len() implies (#[trigger] r.warnings[i]).file
        == filename by {
        assert(known.contains(r.warnings[i].file));
    }
}

/// In the tree of any files, every field has a lookup, a rollup or a
/// computed definition only where its kind says so, and so at most one of
/// the three.
pub proof fn lemma_fields_match_kinds(files: Seq<M3lFileView>, project: Option<ProjectInfoView>)
    ensures
        models_match(resolved(parsed_files(files), project).models),
        models_match(resolved(parsed_files(files), project).interfaces),
        models_match(resolved(parsed_files(files), project).views),
{
    let all = parsed_files(files);
    assert forall|i: int| 0 <= i < all.len() implies parsed_matches(#[trigger] all[i]) by {
        lemma_parsed_matches(lexed(files[i].content), files[i].path);
    }
    lemma_resolved_matches(all, project);
}

} // verus!
