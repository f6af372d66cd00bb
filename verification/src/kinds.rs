//! The kind of a field and its definition: a field has a lookup, a rollup
//! or a computed definition only where its kind says so, and so at most one
//! of the three. This holds of every field that the parser builds, and the
//! resolver keeps it.

use vstd::prelude::*;
use crate::field_line::text_or_empty;
use crate::field_node::field_node;
use crate::parser::{
    finalize_attr, finalized, initial, parsed, quote_in_model, run, step, CurrentElementView,
    ParserStateView,
};
use crate::resolver::{
    all_interfaces, all_models, all_registry, all_views, definitions, field_index, inherit_all,
    inherit_from, inherited_models, inherited_views, kept_from, lemma_model_index, name_errors,
    parent_index, parent_node, registered_names, resolve_in, resolve_model, resolve_models_from,
    resolve_views_from, resolved, tag_model, tag_models, with_inherited,
};
use crate::imports::unvisited;
use crate::sections::{nested_in_field, sub_field_data};
use crate::types::{
    DefinitionView, DiagnosticView, FieldKind, FieldNodeView, ModelNodeView, ModelType,
    ParsedFileView, ProjectInfoView, TokenDataView, TokenType, TokenView,
};

verus! {

/// Whether the definitions of a field match its kind: a lookup stands only
/// in a lookup field, a rollup only in a rollup field, a computed
/// definition only in a computed field.
pub open spec fn details_match(f: FieldNodeView) -> bool {
    &&& f.lookup is Some ==> f.kind == FieldKind::Lookup
    &&& f.rollup is Some ==> f.kind == FieldKind::Rollup
    &&& f.computed is Some ==> f.kind == FieldKind::Computed
}

/// A field whose definitions match its kind has at most one of them.
pub proof fn lemma_at_most_one(f: FieldNodeView)
    requires
        details_match(f),
    ensures
        !(f.lookup is Some && f.rollup is Some),
        !(f.lookup is Some && f.computed is Some),
        !(f.rollup is Some && f.computed is Some),
{
}

/// Whether the definitions of a field, and of every field below it, match
/// their kinds.
pub open spec fn field_matches(f: FieldNodeView) -> bool
    decreases f,
{
    details_match(f) && match f.fields {
        Some(sub) => forall|i: int| 0 <= i < sub.len() ==> field_matches(#[trigger] sub[i]),
        None => true,
    }
}

/// Whether the definitions of all the fields match their kinds.
pub open spec fn fields_match(fields: Seq<FieldNodeView>) -> bool {
    forall|i: int| 0 <= i < fields.len() ==> field_matches(#[trigger] fields[i])
}

/// Whether the fields of all the models match.
pub open spec fn models_match(list: Seq<ModelNodeView>) -> bool {
    forall|i: int| 0 <= i < list.len() ==> fields_match((#[trigger] list[i]).fields)
}

/// A field that is built from a line has the definition of its kind and no
/// other.
pub proof fn lemma_built_field_matches(
    data: TokenDataView,
    line: usize,
    file: Seq<char>,
    kind: FieldKind,
)
    ensures
        field_matches(field_node(data, line, file, kind)),
{
}

/// Whether the fields that the state holds match.
pub open spec fn state_matches(s: ParserStateView) -> bool {
    &&& models_match(s.models)
    &&& models_match(s.interfaces)
    &&& models_match(s.views)
    &&& match s.current_element {
        CurrentElementView::Model(m) => fields_match(m.fields),
        _ => true,
    }
}

proof fn lemma_models_push(list: Seq<ModelNodeView>, m: ModelNodeView)
    requires
        models_match(list),
        fields_match(m.fields),
    ensures
        models_match(list.push(m)),
{
    assert forall|i: int| 0 <= i < list.push(m).len() implies fields_match(
        (#[trigger] list.push(m)[i]).fields,
    ) by {
        if i < list.len() {
            assert(list.push(m)[i] == list[i]);
        }
    }
}

proof fn lemma_fields_push(list: Seq<FieldNodeView>, f: FieldNodeView)
    requires
        fields_match(list),
        field_matches(f),
    ensures
        fields_match(list.push(f)),
{
    assert forall|i: int| 0 <= i < list.push(f).len() implies field_matches(
        #[trigger] list.push(f)[i],
    ) by {
        if i < list.len() {
            assert(list.push(f)[i] == list[i]);
        }
    }
}

proof fn lemma_fields_update(list: Seq<FieldNodeView>, idx: int, f: FieldNodeView)
    requires
        fields_match(list),
        0 <= idx < list.len(),
        field_matches(f),
    ensures
        fields_match(list.update(idx, f)),
{
    assert forall|i: int| 0 <= i < list.update(idx, f).len() implies field_matches(
        #[trigger] list.update(idx, f)[i],
    ) by {
        if i != idx {
            assert(list.update(idx, f)[i] == list[i]);
        }
    }
}

proof fn lemma_finalized(s: ParserStateView)
    requires
        state_matches(s),
    ensures
        state_matches(finalized(s)),
{
    let t = finalize_attr(s);
    match t.current_element {
        CurrentElementView::Model(m) => {
            if m.model_type == ModelType::Interface {
                lemma_models_push(t.interfaces, m);
            } else if m.model_type == ModelType::View {
                lemma_models_push(t.views, m);
            } else {
                lemma_models_push(t.models, m);
            }
        },
        _ => {},
    }
}

proof fn lemma_nested_field(
    f: FieldNodeView,
    key: Option<Seq<char>>,
    value: Option<Seq<char>>,
    line: usize,
    file: Seq<char>,
    kind: FieldKind,
)
    requires
        field_matches(f),
    ensures
        field_matches(nested_in_field(f, key, value, line, file, kind)),
{
    let after = nested_in_field(f, key, value, line, file, kind);
    if key is Some && value is Some && after.fields != f.fields {
        let sub = field_node(sub_field_data(key->0, value->0), line, file, kind);
        lemma_built_field_matches(sub_field_data(key->0, value->0), line, file, kind);
        match f.fields {
            Some(k) => {
                assert forall|i: int| 0 <= i < k.push(sub).len() implies field_matches(
                    #[trigger] k.push(sub)[i],
                ) by {
                    if i < k.len() {
                        assert(k.push(sub)[i] == k[i]);
                    }
                }
            },
            None => {
                assert forall|i: int| 0 <= i < seq![sub].len() implies field_matches(
                    #[trigger] seq![sub][i],
                ) by {
                    assert(seq![sub][i] == sub);
                }
            },
        }
    }
}

proof fn lemma_step(s: ParserStateView, t: TokenView)
    requires
        state_matches(s),
    ensures
        state_matches(step(s, t)),
{
    match t.token_type {
        TokenType::Namespace => {},
        TokenType::Model | TokenType::Interface => {
            lemma_finalized(s);
        },
        TokenType::Enum => {
            lemma_finalized(s);
        },
        TokenType::View => {
            lemma_finalized(s);
        },
        TokenType::AttributeDef => {
            lemma_finalized(s);
        },
        TokenType::Section => {},
        TokenType::Field => {
            if s.current_attr_def is None {
                match s.current_element {
                    CurrentElementView::Model(m) => {
                        if !t.data.is_directive {
                            lemma_built_field_matches(t.data, t.line, s.file, s.current_kind);
                            lemma_fields_push(
                                m.fields,
                                field_node(t.data, t.line, s.file, s.current_kind),
                            );
                        }
                    },
                    _ => {},
                }
            }
        },
        TokenType::NestedItem => {
            match s.current_element {
                CurrentElementView::Model(m) => {
                    let last = s.last_field_idx;
                    if !(s.current_section == Some("Indexes"@) && last is Some) && !(
                    s.current_section == Some("Relations"@) && last is Some) && last is Some && (
                    last->0 as int) < m.fields.len() {
                        let idx = last->0 as int;
                        assert(field_matches(m.fields[idx]));
                        lemma_nested_field(
                            m.fields[idx],
                            t.data.key,
                            t.data.value,
                            t.line,
                            s.file,
                            s.current_kind,
                        );
                        lemma_fields_update(
                            m.fields,
                            idx,
                            nested_in_field(
                                m.fields[idx],
                                t.data.key,
                                t.data.value,
                                t.line,
                                s.file,
                                s.current_kind,
                            ),
                        );
                    }
                },
                _ => {},
            }
        },
        TokenType::Blockquote => {
            if s.current_attr_def is None {
                match s.current_element {
                    CurrentElementView::Model(m) => {
                        let text = text_or_empty(t.data.name);
                        let after = quote_in_model(m, s.last_field_idx, text);
                        if s.last_field_idx is Some && (s.last_field_idx->0 as int)
                            < m.fields.len() {
                            let idx = s.last_field_idx->0 as int;
                            assert(field_matches(m.fields[idx]));
                            lemma_fields_update(m.fields, idx, after.fields[idx]);
                            assert(after.fields =~= m.fields.update(idx, after.fields[idx]));
                        }
                    },
                    _ => {},
                }
            }
        },
        TokenType::Text => {},
        TokenType::HorizontalRule | TokenType::Blank => {},
    }
}

proof fn lemma_run(s: ParserStateView, tokens: Seq<TokenView>, i: int)
    requires
        state_matches(s),
    ensures
        state_matches(run(s, tokens, i)),
    decreases tokens.len() - i,
{
    if 0 <= i < tokens.len() {
        lemma_step(s, tokens[i]);
        lemma_run(step(s, tokens[i]), tokens, i + 1);
    }
}

/// Whether the fields of what a file holds match.
pub open spec fn parsed_matches(pf: ParsedFileView) -> bool {
    models_match(pf.models) && models_match(pf.interfaces) && models_match(pf.views)
}

/// The fields of a file that is parsed have definitions that match their
/// kinds.
pub proof fn lemma_parsed_matches(tokens: Seq<TokenView>, file: Seq<char>)
    ensures
        parsed_matches(parsed(tokens, file)),
{
    lemma_run(initial(file), tokens, 0);
    lemma_finalized(run(initial(file), tokens, 0));
}

proof fn lemma_models_add(a: Seq<ModelNodeView>, b: Seq<ModelNodeView>)
    requires
        models_match(a),
        models_match(b),
    ensures
        models_match(a + b),
{
    assert forall|i: int| 0 <= i < (a + b).len() implies fields_match(
        (#[trigger] (a + b)[i]).fields,
    ) by {
        if i < a.len() {
            assert((a + b)[i] == a[i]);
        } else {
            assert((a + b)[i] == b[i - a.len()]);
        }
    }
}

proof fn lemma_collected(files: Seq<ParsedFileView>)
    requires
        forall|i: int| 0 <= i < files.len() ==> parsed_matches(#[trigger] files[i]),
    ensures
        models_match(all_models(files)),
        models_match(all_interfaces(files)),
        models_match(all_views(files)),
    decreases files.len(),
{
    if files.len() > 0 {
        let rest = files.drop_last();
        assert(parsed_matches(files.last()));
        assert forall|i: int| 0 <= i < rest.len() implies parsed_matches(#[trigger] rest[i]) by {
            assert(rest[i] == files[i]);
        }
        lemma_collected(rest);
        lemma_models_add(all_models(rest), files.last().models);
        lemma_models_add(all_interfaces(rest), files.last().interfaces);
        lemma_models_add(all_views(rest), files.last().views);
    }
}

proof fn lemma_with_inherited(inherited: Seq<FieldNodeView>, more: Seq<FieldNodeView>, k: int)
    requires
        fields_match(inherited),
        fields_match(more),
    ensures
        fields_match(with_inherited(inherited, more, k)),
    decreases more.len() - k,
{
    if 0 <= k < more.len() {
        if field_index(inherited, more[k].name, 0) < inherited.len() {
            lemma_with_inherited(inherited, more, k + 1);
        } else {
            assert(field_matches(more[k]));
            lemma_fields_push(inherited, more[k]);
            lemma_with_inherited(inherited.push(more[k]), more, k + 1);
        }
    }
}

proof fn lemma_inherit_from(
    models: Seq<ModelNodeView>,
    interfaces: Seq<ModelNodeView>,
    defs: Seq<DefinitionView>,
    child: ModelNodeView,
    name: Seq<char>,
    visiting: Seq<bool>,
    st: (Seq<FieldNodeView>, Seq<bool>, Seq<DiagnosticView>),
)
    requires
        models_match(models),
        models_match(interfaces),
        fields_match(st.0),
    ensures
        fields_match(inherit_from(models, interfaces, defs, child, name, visiting, st).0),
    decreases unvisited(visiting), 0nat,
{
    lemma_model_index(models, name, models.len() as int);
    lemma_model_index(interfaces, name, interfaces.len() as int);
    match parent_index(models, interfaces, name) {
        None => {},
        Some(p) => {
            if 0 <= p < visiting.len() && p < st.1.len() && p < models.len() + interfaces.len()
                && !visiting[p] && !st.1[p] && unvisited(visiting.update(p, true)) < unvisited(
                visiting,
            ) {
                let parent = parent_node(models, interfaces, p);
                if p < models.len() {
                    assert(fields_match(models[p].fields));
                } else {
                    assert(fields_match(interfaces[p - models.len()].fields));
                }
                lemma_inherit_all(
                    models,
                    interfaces,
                    defs,
                    child,
                    parent.inherits,
                    0,
                    visiting.update(p, true),
                    st,
                );
                let r = inherit_all(
                    models,
                    interfaces,
                    defs,
                    child,
                    parent.inherits,
                    0,
                    visiting.update(p, true),
                    st,
                );
                if p < r.1.len() {
                    lemma_with_inherited(r.0, parent.fields, 0);
                }
            }
        },
    }
}

proof fn lemma_inherit_all(
    models: Seq<ModelNodeView>,
    interfaces: Seq<ModelNodeView>,
    defs: Seq<DefinitionView>,
    child: ModelNodeView,
    names: Seq<Seq<char>>,
    k: int,
    visiting: Seq<bool>,
    st: (Seq<FieldNodeView>, Seq<bool>, Seq<DiagnosticView>),
)
    requires
        models_match(models),
        models_match(interfaces),
        fields_match(st.0),
    ensures
        fields_match(inherit_all(models, interfaces, defs, child, names, k, visiting, st).0),
    decreases unvisited(visiting), 1 + names.len() - k,
{
    if 0 <= k < names.len() {
        lemma_inherit_from(models, interfaces, defs, child, names[k], visiting, st);
        lemma_inherit_all(
            models,
            interfaces,
            defs,
            child,
            names,
            k + 1,
            visiting,
            inherit_from(models, interfaces, defs, child, names[k], visiting, st),
        );
    }
}

proof fn lemma_kept(
    inherited: Seq<FieldNodeView>,
    own: Seq<FieldNodeView>,
    k: int,
    acc: Seq<FieldNodeView>,
)
    requires
        fields_match(inherited),
        fields_match(acc),
    ensures
        fields_match(kept_from(inherited, own, k, acc)),
    decreases inherited.len() - k,
{
    if 0 <= k < inherited.len() {
        if crate::resolver::overrides(own, inherited[k].name, 0) {
            lemma_kept(inherited, own, k + 1, acc);
        } else {
            assert(field_matches(inherited[k]));
            lemma_fields_push(acc, inherited[k]);
            lemma_kept(inherited, own, k + 1, acc.push(inherited[k]));
        }
    }
}

proof fn lemma_resolve_in(
    list: Seq<ModelNodeView>,
    models: Seq<ModelNodeView>,
    interfaces: Seq<ModelNodeView>,
    defs: Seq<DefinitionView>,
    i: int,
    errors: Seq<DiagnosticView>,
)
    requires
        0 <= i < list.len(),
        models_match(list),
        models_match(models),
        models_match(interfaces),
    ensures
        models_match(resolve_in(list, models, interfaces, defs, i, errors).0),
        resolve_in(list, models, interfaces, defs, i, errors).0.len() == list.len(),
{
    let m = list[i];
    assert(fields_match(m.fields));
    if m.inherits.len() > 0 {
        let none = Seq::new(models.len() + interfaces.len(), |j: int| false);
        let start = (Seq::<FieldNodeView>::empty(), none, errors);
        lemma_inherit_all(models, interfaces, defs, m, m.inherits, 0, none, start);
        let r = inherit_all(models, interfaces, defs, m, m.inherits, 0, none, start);
        lemma_kept(r.0, m.fields, 0, Seq::empty());
        let kept = kept_from(r.0, m.fields, 0, Seq::empty());
        let fields = kept + m.fields;
        assert forall|k: int| 0 <= k < fields.len() implies field_matches(#[trigger] fields[k]) by {
            if k < kept.len() {
                assert(fields[k] == kept[k]);
            } else {
                assert(fields[k] == m.fields[k - kept.len()]);
            }
        }
        let after = list.update(i, ModelNodeView { fields: fields, ..m });
        assert forall|j: int| 0 <= j < after.len() implies fields_match(
            (#[trigger] after[j]).fields,
        ) by {
            if j != i {
                assert(after[j] == list[j]);
            }
        }
    }
}

proof fn lemma_resolve_model(
    models: Seq<ModelNodeView>,
    interfaces: Seq<ModelNodeView>,
    defs: Seq<DefinitionView>,
    i: int,
    errors: Seq<DiagnosticView>,
)
    requires
        0 <= i < models.len(),
        models_match(models),
        models_match(interfaces),
    ensures
        models_match(resolve_model(models, interfaces, defs, i, errors).0),
        resolve_model(models, interfaces, defs, i, errors).0.len() == models.len(),
{
    lemma_resolve_in(models, models, interfaces, defs, i, errors);
}

proof fn lemma_resolve_views(
    views: Seq<ModelNodeView>,
    models: Seq<ModelNodeView>,
    interfaces: Seq<ModelNodeView>,
    defs: Seq<DefinitionView>,
    i: int,
    errors: Seq<DiagnosticView>,
)
    requires
        0 <= i,
        models_match(views),
        models_match(models),
        models_match(interfaces),
    ensures
        models_match(resolve_views_from(views, models, interfaces, defs, i, errors).0),
    decreases views.len() - i,
{
    if i < views.len() {
        lemma_resolve_in(views, models, interfaces, defs, i, errors);
        let r = resolve_in(views, models, interfaces, defs, i, errors);
        lemma_resolve_views(r.0, models, interfaces, defs, i + 1, r.1);
    }
}

proof fn lemma_resolve_models(
    models: Seq<ModelNodeView>,
    interfaces: Seq<ModelNodeView>,
    defs: Seq<DefinitionView>,
    i: int,
    errors: Seq<DiagnosticView>,
)
    requires
        0 <= i,
        models_match(models),
        models_match(interfaces),
    ensures
        models_match(resolve_models_from(models, interfaces, defs, i, errors).0),
    decreases models.len() - i,
{
    if i < models.len() {
        lemma_resolve_model(models, interfaces, defs, i, errors);
        let r = resolve_model(models, interfaces, defs, i, errors);
        lemma_resolve_models(r.0, interfaces, defs, i + 1, r.1);
    }
}

proof fn lemma_tagged(list: Seq<ModelNodeView>, names: Seq<Seq<char>>)
    requires
        models_match(list),
    ensures
        models_match(tag_models(list, names)),
{
    let tagged = tag_models(list, names);
    assert forall|i: int| 0 <= i < tagged.len() implies fields_match(
        (#[trigger] tagged[i]).fields,
    ) by {
        let m = list[i];
        let t = tagged[i];
        assert(fields_match(m.fields));
        assert(t == tag_model(m, names));
        assert forall|k: int| 0 <= k < t.fields.len() implies field_matches(
            #[trigger] t.fields[k],
        ) by {
            assert(field_matches(m.fields[k]));
            assert(t.fields[k].fields == m.fields[k].fields);
        }
    }
}

/// In a resolved tree every field, with the fields below it, has a lookup,
/// a rollup or a computed definition only where its kind says so, if the
/// same holds of the files that the tree is made of.
pub proof fn lemma_resolved_matches(files: Seq<ParsedFileView>, project: Option<ProjectInfoView>)
    requires
        forall|i: int| 0 <= i < files.len() ==> parsed_matches(#[trigger] files[i]),
    ensures
        models_match(resolved(files, project).models),
        models_match(resolved(files, project).interfaces),
        models_match(resolved(files, project).views),
{
    let names = registered_names(all_registry(files));
    lemma_collected(files);
    lemma_resolve_models(
        all_models(files),
        all_interfaces(files),
        definitions(files),
        0,
        name_errors(definitions(files)),
    );
    lemma_resolve_views(
        all_views(files),
        inherited_models(files).0,
        all_interfaces(files),
        definitions(files),
        0,
        inherited_models(files).1,
    );
    lemma_tagged(inherited_models(files).0, names);
    lemma_tagged(all_interfaces(files), names);
    lemma_tagged(inherited_views(files).0, names);
}

} // verus!
