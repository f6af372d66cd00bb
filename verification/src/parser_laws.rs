//! What holds of every parsed file: each place in it names the file that
//! was parsed.

use vstd::prelude::*;
use crate::field_line::text_or_empty;
use crate::field_node::field_node;
use crate::locations::{
    enums_located, field_located, fields_located, model_located, models_located, parsed_located,
};
use crate::parser::{
    finalize_attr, finalized, initial, new_model, new_view, on_section, on_text, parsed,
    quote_in_model, run, step, CurrentElementView, ParserStateView,
};
use crate::sections::{
    nested_in_field, nested_in_model, opt_member, section_item, sub_field_data, with_directive,
    with_last_member,
};
use crate::types::{
    FieldKind, FieldNodeView, JsonView, ModelNodeView, ModelType, TokenDataView, TokenType,
    TokenView,
};
use crate::validator::{member_of, relation_file, text_of};
use crate::values::{args_json, loc_entry, member_index, nested_value, with_member};

verus! {

/// Whether every place that the state holds names `file`.
pub open spec fn state_located(s: ParserStateView, file: Seq<char>) -> bool {
    &&& s.file == file
    &&& models_located(s.models, seq![file])
    &&& models_located(s.interfaces, seq![file])
    &&& models_located(s.views, seq![file])
    &&& enums_located(s.enums, seq![file])
    &&& match s.current_element {
        CurrentElementView::Model(m) => model_located(m, seq![file]),
        CurrentElementView::Enum(e) => e.source == file,
        CurrentElementView::Nothing => true,
    }
}

/// The only file that a list of one file holds is that file.
pub proof fn lemma_known_one(file: Seq<char>, f: Seq<char>)
    ensures
        seq![file].contains(f) <==> f == file,
{
    if f == file {
        assert(seq![file][0] == f);
    }
}

/// A list of located models with one more that is located is located.
pub proof fn lemma_models_push(list: Seq<ModelNodeView>, m: ModelNodeView, known: Seq<Seq<char>>)
    requires
        models_located(list, known),
        model_located(m, known),
    ensures
        models_located(list.push(m), known),
{
    assert forall|i: int| 0 <= i < list.push(m).len() implies model_located(
        #[trigger] list.push(m)[i],
        known,
    ) by {
        if i < list.len() {
            assert(list.push(m)[i] == list[i]);
        }
    }
}

/// Filing the open element keeps the state located.
pub proof fn lemma_finalized(s: ParserStateView, file: Seq<char>)
    requires
        state_located(s, file),
    ensures
        state_located(finalized(s), file),
{
    let t = finalize_attr(s);
    lemma_known_one(file, file);
    match t.current_element {
        CurrentElementView::Enum(e) => {
            assert forall|i: int| 0 <= i < t.enums.push(e).len() implies seq![file].contains(
                (#[trigger] t.enums.push(e)[i]).source,
            ) by {
                if i < t.enums.len() {
                    assert(t.enums.push(e)[i] == t.enums[i]);
                }
            }
        },
        CurrentElementView::Model(m) => {
            if m.model_type == ModelType::Interface {
                lemma_models_push(t.interfaces, m, seq![file]);
            } else if m.model_type == ModelType::View {
                lemma_models_push(t.views, m, seq![file]);
            } else {
                lemma_models_push(t.models, m, seq![file]);
            }
        },
        CurrentElementView::Nothing => {},
    }
}

/// A field as it is built is located.
pub proof fn lemma_field_node_located(
    data: TokenDataView,
    line: usize,
    file: Seq<char>,
    kind: FieldKind,
)
    ensures
        field_located(field_node(data, line, file, kind), seq![file]),
{
    lemma_known_one(file, file);
}

/// Located fields with one more located field are located.
pub proof fn lemma_fields_push(list: Seq<FieldNodeView>, f: FieldNodeView, known: Seq<Seq<char>>)
    requires
        fields_located(list, known),
        field_located(f, known),
    ensures
        fields_located(list.push(f), known),
{
    assert forall|i: int| 0 <= i < list.push(f).len() implies field_located(
        #[trigger] list.push(f)[i],
        known,
    ) by {
        if i < list.len() {
            assert(list.push(f)[i] == list[i]);
        }
    }
}

/// The file in the place that `loc_entry` writes is the file given.
pub proof fn lemma_loc_entry(file: Seq<char>, line: usize)
    ensures
        text_of(member_of(loc_entry(file, line), "file"@)) == Some(file),
{
    reveal_with_fuel(member_index, 2);
}

/// The value under a key that stands behind members with other keys.
pub proof fn lemma_member_behind(
    head: Seq<(Seq<char>, JsonView)>,
    key: Seq<char>,
    value: JsonView,
    from: int,
)
    requires
        0 <= from <= head.len(),
        forall|i: int| 0 <= i < head.len() ==> (#[trigger] head[i]).0 != key,
    ensures
        member_index(head + seq![(key, value)], key, from) == head.len(),
    decreases head.len() - from,
{
    let all = head + seq![(key, value)];
    if from < head.len() {
        assert(all[from] == head[from]);
        lemma_member_behind(head, key, value, from + 1);
    } else {
        assert(all[from] == (key, value));
    }
}

/// An entry whose only place is written by `loc_entry` names the file given.
pub proof fn lemma_entry_file(
    m: ModelNodeView,
    head: Seq<(Seq<char>, JsonView)>,
    file: Seq<char>,
    line: usize,
)
    requires
        forall|i: int| 0 <= i < head.len() ==> (#[trigger] head[i]).0 != "loc"@,
    ensures
        relation_file(m, JsonView::Object(head + seq![("loc"@, loc_entry(file, line))])) == file,
{
    lemma_member_behind(head, "loc"@, loc_entry(file, line), 0);
    let all = head + seq![("loc"@, loc_entry(file, line))];
    assert(all[head.len() as int] == ("loc"@, loc_entry(file, line)));
    lemma_loc_entry(file, line);
}

/// A model with another list of relations is located where the earlier
/// relations stay and the new ones name the file.
pub proof fn lemma_relation_added(
    m: ModelNodeView,
    after: ModelNodeView,
    entry: JsonView,
    file: Seq<char>,
)
    requires
        model_located(m, seq![file]),
        after.source == m.source,
        after.fields == m.fields,
        after.sections.relations == m.sections.relations.push(entry),
        relation_file(m, entry) == file,
    ensures
        model_located(after, seq![file]),
{
    lemma_known_one(file, file);
    assert forall|k: int| 0 <= k < after.sections.relations.len() implies seq![file].contains(
        relation_file(after, #[trigger] after.sections.relations[k]),
    ) by {
        if k < m.sections.relations.len() {
            assert(after.sections.relations[k] == m.sections.relations[k]);
            assert(relation_file(after, after.sections.relations[k]) == relation_file(
                m,
                m.sections.relations[k],
            ));
        } else {
            assert(relation_file(after, after.sections.relations[k]) == relation_file(m, entry));
        }
    }
}

/// A model that differs from a located one in neither its file, its
/// fields nor its relations is located.
pub proof fn lemma_same_places(m: ModelNodeView, after: ModelNodeView, known: Seq<Seq<char>>)
    requires
        model_located(m, known),
        after.source == m.source,
        after.fields == m.fields,
        after.sections.relations == m.sections.relations,
    ensures
        model_located(after, known),
{
    assert forall|k: int| 0 <= k < after.sections.relations.len() implies known.contains(
        relation_file(after, #[trigger] after.sections.relations[k]),
    ) by {
        assert(relation_file(after, after.sections.relations[k]) == relation_file(
            m,
            m.sections.relations[k],
        ));
    }
}

/// A model with one more located field is located.
pub proof fn lemma_field_added(m: ModelNodeView, f: FieldNodeView, known: Seq<Seq<char>>)
    requires
        model_located(m, known),
        field_located(f, known),
    ensures
        model_located(ModelNodeView { fields: m.fields.push(f), ..m }, known),
{
    let after = ModelNodeView { fields: m.fields.push(f), ..m };
    lemma_fields_push(m.fields, f, known);
    assert forall|k: int| 0 <= k < after.sections.relations.len() implies known.contains(
        relation_file(after, #[trigger] after.sections.relations[k]),
    ) by {
        assert(relation_file(after, after.sections.relations[k]) == relation_file(
            m,
            m.sections.relations[k],
        ));
    }
}

/// The keys `type`, `raw` and `args` are not the key `loc`.
pub proof fn lemma_entry_keys()
    ensures
        "type"@ != "loc"@,
        "raw"@ != "loc"@,
        "args"@ != "loc"@,
{
    reveal_strlit("type");
    reveal_strlit("raw");
    reveal_strlit("args");
    reveal_strlit("loc");
    assert("type"@.len() == 4);
    assert("args"@.len() == 4);
    assert("loc"@.len() == 3);
    assert("raw"@[0] == 'r');
    assert("loc"@[0] == 'l');
}

/// A directive keeps the model located.
pub proof fn lemma_directive_located(
    m: ModelNodeView,
    data: TokenDataView,
    raw: Seq<char>,
    line: usize,
    file: Seq<char>,
)
    requires
        model_located(m, seq![file]),
    ensures
        model_located(with_directive(m, data, raw, line, file), seq![file]),
{
    let after = with_directive(m, data, raw, line, file);
    if data.attributes.len() == 0 {
    } else {
        let a = data.attributes[0];
        if a.name == "relation"@ && !(a.name == "index"@ || a.name == "unique"@) {
            lemma_entry_keys();
            let text = ("raw"@, JsonView::String(crate::text::trim(raw)));
            let args = opt_member(
                "args"@,
                if a.args.len() > 0 {
                    Some(args_json(a.args))
                } else {
                    None
                },
            );
            let kind = ("type"@, JsonView::String("directive"@));
            let head = seq![kind, text] + args;
            assert forall|i: int| 0 <= i < head.len() implies (#[trigger] head[i]).0 != "loc"@ by {
                if i >= 2 {
                    assert(head[i] == args[i - 2]);
                }
            }
            lemma_entry_file(m, head, file, line);
            let entry = JsonView::Object(head + seq![("loc"@, loc_entry(file, line))]);
            assert(after.sections.relations == m.sections.relations.push(entry));
            lemma_relation_added(m, after, entry, file);
        } else {
            lemma_same_places(m, after, seq![file]);
        }
    }
}

/// A field line inside a section keeps the model located.
pub proof fn lemma_section_item_located(
    m: ModelNodeView,
    data: TokenDataView,
    raw: Seq<char>,
    line: usize,
    file: Seq<char>,
    section: Seq<char>,
    kind: FieldKind,
    done: bool,
    last: Option<usize>,
)
    requires
        model_located(m, seq![file]),
    ensures
        model_located(
            section_item(m, data, raw, line, file, section, kind, done, last).0,
            seq![file],
        ),
{
    let after = section_item(m, data, raw, line, file, section, kind, done, last).0;
    let name = text_or_empty(data.name);
    if section == "Source"@ && m.model_type == ModelType::View {
        if crate::sections::is_source_name(name) && !done {
            lemma_same_places(m, after, seq![file]);
        } else {
            lemma_field_node_located(data, line, file, kind);
            lemma_field_added(m, field_node(data, line, file, kind), seq![file]);
        }
    } else if section == "Refresh"@ && m.model_type == ModelType::View {
        lemma_same_places(m, after, seq![file]);
    } else if section == "Indexes"@ {
        lemma_same_places(m, after, seq![file]);
    } else if section == "Relations"@ {
        lemma_entry_keys();
        let head = seq![("raw"@, JsonView::String(crate::sections::item_text(raw)))];
        lemma_entry_file(m, head, file, line);
        let entry = JsonView::Object(head + seq![("loc"@, loc_entry(file, line))]);
        assert(head + seq![("loc"@, loc_entry(file, line))] =~= seq![
            ("raw"@, JsonView::String(crate::sections::item_text(raw))),
            ("loc"@, loc_entry(file, line)),
        ]);
        assert(after.sections.relations == m.sections.relations.push(entry));
        lemma_relation_added(m, after, entry, file);
    } else {
        lemma_same_places(m, after, seq![file]);
    }
}

/// Setting a key that is not `key` leaves what stands under `key`.
pub proof fn lemma_member_other(
    members: Seq<(Seq<char>, JsonView)>,
    set: Seq<char>,
    value: JsonView,
    key: Seq<char>,
)
    requires
        set != key,
    ensures
        member_of(JsonView::Object(with_member(members, set, value)), key) == member_of(
            JsonView::Object(members),
            key,
        ),
{
    let after = with_member(members, set, value);
    let i = member_index(members, set, 0);
    lemma_index_bounds(members, set, 0);
    lemma_index_bounds(members, key, 0);
    let k = member_index(members, key, 0);
    if 0 <= i < members.len() {
        assert(after == members.update(i, (set, value)));
        lemma_index_same_keys(members, after, key, 0);
        if k < members.len() {
            assert(k != i);
            assert(after[k] == members[k]);
        }
    } else {
        assert(after == members.push((set, value)));
        lemma_index_pushed(members, (set, value), key, 0);
    }
}

/// The position of a key lies between the start and the end, the key
/// stands there, and nowhere before.
pub proof fn lemma_index_bounds(members: Seq<(Seq<char>, JsonView)>, key: Seq<char>, from: int)
    requires
        0 <= from <= members.len(),
    ensures
        from <= member_index(members, key, from) <= members.len(),
        member_index(members, key, from) < members.len() ==> members[member_index(
            members,
            key,
            from,
        )].0 == key,
        forall|j: int| from <= j < member_index(members, key, from) ==> members[j].0 != key,
    decreases members.len() - from,
{
    if from < members.len() && members[from].0 != key {
        lemma_index_bounds(members, key, from + 1);
    }
}

/// Two lists with the same keys, place by place, hold a key at the same place.
pub proof fn lemma_index_same_keys(
    a: Seq<(Seq<char>, JsonView)>,
    b: Seq<(Seq<char>, JsonView)>,
    key: Seq<char>,
    from: int,
)
    requires
        a.len() == b.len(),
        forall|j: int| 0 <= j < a.len() ==> (#[trigger] a[j]).0 == b[j].0,
    ensures
        member_index(a, key, from) == member_index(b, key, from),
    decreases a.len() - from,
{
    if 0 <= from < a.len() {
        assert(a[from].0 == b[from].0);
        if a[from].0 != key {
            lemma_index_same_keys(a, b, key, from + 1);
        }
    }
}

/// One more member with another key leaves the place of a key, or leaves
/// the key missing.
pub proof fn lemma_index_pushed(
    members: Seq<(Seq<char>, JsonView)>,
    more: (Seq<char>, JsonView),
    key: Seq<char>,
    from: int,
)
    requires
        0 <= from <= members.len(),
        more.0 != key,
    ensures
        member_index(members, key, from) < members.len() ==> member_index(
            members.push(more),
            key,
            from,
        ) == member_index(members, key, from),
        member_index(members, key, from) >= members.len() ==> member_index(
            members.push(more),
            key,
            from,
        ) == members.len() + 1,
    decreases members.len() - from,
{
    let after = members.push(more);
    if from < members.len() {
        assert(after[from] == members[from]);
        if members[from].0 != key {
            lemma_index_pushed(members, more, key, from + 1);
        }
    } else {
        assert(after[from] == more);
        reveal_with_fuel(member_index, 2);
    }
}

/// A key that is set holds the value that it was set to.
pub proof fn lemma_member_set(
    members: Seq<(Seq<char>, JsonView)>,
    key: Seq<char>,
    value: JsonView,
)
    ensures
        member_of(JsonView::Object(with_member(members, key, value)), key) == Some(value),
{
    let after = with_member(members, key, value);
    let i = member_index(members, key, 0);
    lemma_index_bounds(members, key, 0);
    if 0 <= i < members.len() {
        assert(after == members.update(i, (key, value)));
        lemma_index_same_keys(members, after, key, 0);
    } else {
        lemma_member_behind(members, key, value, 0);
        assert(after =~= members + seq![(key, value)]);
    }
}

/// Setting a key of an entry to the value of a nested item leaves the file
/// of the entry as it is, or makes it the file of the model.
pub proof fn lemma_nested_entry_file(
    m: ModelNodeView,
    members: Seq<(Seq<char>, JsonView)>,
    key: Seq<char>,
    value: Seq<char>,
)
    ensures
        relation_file(m, JsonView::Object(with_member(members, key, nested_value(value))))
            == relation_file(m, JsonView::Object(members)) || relation_file(
            m,
            JsonView::Object(with_member(members, key, nested_value(value))),
        ) == m.source,
{
    let v = nested_value(value);
    if key == "loc"@ {
        lemma_member_set(members, key, v);
        assert(!(v is Object));
    } else {
        lemma_member_other(members, key, v, "loc"@);
    }
}

/// A nested item under a relation keeps the model located.
pub proof fn lemma_nested_relation_located(
    m: ModelNodeView,
    key: Seq<char>,
    value: Seq<char>,
    file: Seq<char>,
)
    requires
        model_located(m, seq![file]),
    ensures
        model_located(
            ModelNodeView {
                sections: crate::types::SectionsView {
                    relations: with_last_member(m.sections.relations, key, nested_value(value)),
                    ..m.sections
                },
                ..m
            },
            seq![file],
        ),
{
    let list = m.sections.relations;
    let after_list = with_last_member(list, key, nested_value(value));
    let after = ModelNodeView {
        sections: crate::types::SectionsView { relations: after_list, ..m.sections },
        ..m
    };
    lemma_known_one(file, file);
    lemma_known_one(file, m.source);
    assert forall|k: int| 0 <= k < after_list.len() implies seq![file].contains(
        relation_file(after, #[trigger] after_list[k]),
    ) by {
        assert(seq![file].contains(relation_file(m, list[k])));
        if list.len() > 0 && k == list.len() - 1 {
            match list.last() {
                JsonView::Object(members) => {
                    lemma_nested_entry_file(m, members, key, value);
                    assert(relation_file(after, after_list[k]) == relation_file(m, after_list[k]));
                },
                _ => {
                    assert(relation_file(after, after_list[k]) == relation_file(m, list[k]));
                },
            }
        } else {
            assert(after_list[k] == list[k]);
            assert(relation_file(after, after_list[k]) == relation_file(m, list[k]));
        }
    }
}

/// A nested item keeps the field that it stands under located.
pub proof fn lemma_nested_field_located(
    f: FieldNodeView,
    key: Option<Seq<char>>,
    value: Option<Seq<char>>,
    line: usize,
    file: Seq<char>,
    kind: FieldKind,
)
    requires
        field_located(f, seq![file]),
    ensures
        field_located(nested_in_field(f, key, value, line, file, kind), seq![file]),
{
    let after = nested_in_field(f, key, value, line, file, kind);
    if key is Some && value is Some && after.fields != f.fields {
        let sub = field_node(sub_field_data(key->0, value->0), line, file, kind);
        lemma_field_node_located(sub_field_data(key->0, value->0), line, file, kind);
        match f.fields {
            Some(k) => {
                assert forall|i: int| 0 <= i < k.push(sub).len() implies field_located(
                    #[trigger] k.push(sub)[i],
                    seq![file],
                ) by {
                    if i < k.len() {
                        assert(k.push(sub)[i] == k[i]);
                    }
                }
            },
            None => {
                assert forall|i: int| 0 <= i < seq![sub].len() implies field_located(
                    #[trigger] seq![sub][i],
                    seq![file],
                ) by {
                    assert(seq![sub][i] == sub);
                }
            },
        }
    }
}

/// A model with one of its fields replaced by a located field is located.
pub proof fn lemma_field_replaced(
    m: ModelNodeView,
    idx: int,
    f: FieldNodeView,
    known: Seq<Seq<char>>,
)
    requires
        model_located(m, known),
        0 <= idx < m.fields.len(),
        field_located(f, known),
    ensures
        model_located(ModelNodeView { fields: m.fields.update(idx, f), ..m }, known),
{
    let after = ModelNodeView { fields: m.fields.update(idx, f), ..m };
    assert forall|i: int| 0 <= i < after.fields.len() implies field_located(
        #[trigger] after.fields[i],
        known,
    ) by {
        if i != idx {
            assert(after.fields[i] == m.fields[i]);
        }
    }
    assert forall|k: int| 0 <= k < after.sections.relations.len() implies known.contains(
        relation_file(after, #[trigger] after.sections.relations[k]),
    ) by {
        assert(relation_file(after, after.sections.relations[k]) == relation_file(
            m,
            m.sections.relations[k],
        ));
    }
}

/// A nested item keeps the model located.
pub proof fn lemma_nested_model_located(
    m: ModelNodeView,
    key: Option<Seq<char>>,
    value: Option<Seq<char>>,
    line: usize,
    file: Seq<char>,
    section: Option<Seq<char>>,
    kind: FieldKind,
    last: Option<usize>,
)
    requires
        model_located(m, seq![file]),
    ensures
        model_located(
            nested_in_model(m, key, value, line, file, section, kind, last),
            seq![file],
        ),
{
    let after = nested_in_model(m, key, value, line, file, section, kind, last);
    if section == Some("Indexes"@) && last is Some {
        lemma_same_places(m, after, seq![file]);
    } else if section == Some("Relations"@) && last is Some {
        match key {
            Some(k) => {
                lemma_nested_relation_located(m, k, text_or_empty(value), file);
            },
            None => {},
        }
    } else if last is Some && (last->0 as int) < m.fields.len() {
        let idx = last->0 as int;
        assert(field_located(m.fields[idx], seq![file]));
        lemma_nested_field_located(m.fields[idx], key, value, line, file, kind);
        lemma_field_replaced(
            m,
            idx,
            nested_in_field(m.fields[idx], key, value, line, file, kind),
            seq![file],
        );
    } else {
        lemma_same_places(m, after, seq![file]);
    }
}

/// One token keeps the state located.
pub proof fn lemma_step_located(s: ParserStateView, t: TokenView, file: Seq<char>)
    requires
        state_located(s, file),
    ensures
        state_located(step(s, t), file),
{
    lemma_known_one(file, file);
    match t.token_type {
        TokenType::Namespace => {},
        TokenType::Model | TokenType::Interface => {
            lemma_finalized(s, file);
            let m = new_model(t, s.file);
            assert(model_located(m, seq![file]));
        },
        TokenType::Enum => {
            lemma_finalized(s, file);
        },
        TokenType::View => {
            lemma_finalized(s, file);
            let m = new_view(t, s.file);
            assert(model_located(m, seq![file]));
        },
        TokenType::AttributeDef => {
            lemma_finalized(s, file);
        },
        TokenType::Section => {
            match s.current_element {
                CurrentElementView::Model(m) => {
                    match on_section(s, t).current_element {
                        CurrentElementView::Model(after) => {
                            lemma_same_places(m, after, seq![file]);
                        },
                        _ => {},
                    }
                },
                _ => {},
            }
        },
        TokenType::Field => {
            if s.current_attr_def is None {
                match s.current_element {
                    CurrentElementView::Model(m) => {
                        if t.data.is_directive {
                            lemma_directive_located(m, t.data, t.raw, t.line, s.file);
                        } else {
                            match s.current_section {
                                Some(section) => {
                                    lemma_section_item_located(
                                        m,
                                        t.data,
                                        t.raw,
                                        t.line,
                                        s.file,
                                        section,
                                        s.current_kind,
                                        s.source_directives_done,
                                        s.last_field_idx,
                                    );
                                },
                                None => {
                                    lemma_field_node_located(
                                        t.data,
                                        t.line,
                                        s.file,
                                        s.current_kind,
                                    );
                                    lemma_field_added(
                                        m,
                                        field_node(t.data, t.line, s.file, s.current_kind),
                                        seq![file],
                                    );
                                },
                            }
                        }
                    },
                    _ => {},
                }
            }
        },
        TokenType::NestedItem => {
            match s.current_element {
                CurrentElementView::Model(m) => {
                    lemma_nested_model_located(
                        m,
                        t.data.key,
                        t.data.value,
                        t.line,
                        s.file,
                        s.current_section,
                        s.current_kind,
                        s.last_field_idx,
                    );
                },
                _ => {},
            }
        },
        TokenType::Blockquote => {
            if s.current_attr_def is None {
                match s.current_element {
                    CurrentElementView::Model(m) => {
                        let text = text_or_empty(t.data.name);
                        let after = quote_in_model(m, s.last_field_idx, text);
                        if s.last_field_idx is Some && (s.last_field_idx->0 as int)
                            < m.fields.len() {
                            let idx = s.last_field_idx->0 as int;
                            assert(field_located(m.fields[idx], seq![file]));
                            lemma_field_replaced(m, idx, after.fields[idx], seq![file]);
                            assert(after.fields =~= m.fields.update(idx, after.fields[idx]));
                        } else {
                            lemma_same_places(m, after, seq![file]);
                        }
                    },
                    _ => {},
                }
            }
        },
        TokenType::Text => {
            match s.current_element {
                CurrentElementView::Model(m) => {
                    match on_text(s, t).current_element {
                        CurrentElementView::Model(after) => {
                            lemma_same_places(m, after, seq![file]);
                        },
                        _ => {},
                    }
                },
                _ => {},
            }
        },
        TokenType::HorizontalRule | TokenType::Blank => {},
    }
}

/// The tokens keep the state located.
pub proof fn lemma_run_located(s: ParserStateView, tokens: Seq<TokenView>, i: int, file: Seq<char>)
    requires
        state_located(s, file),
    ensures
        state_located(run(s, tokens, i), file),
    decreases tokens.len() - i,
{
    if 0 <= i < tokens.len() {
        lemma_step_located(s, tokens[i], file);
        lemma_run_located(step(s, tokens[i]), tokens, i + 1, file);
    }
}

/// Every place in a parsed file names the file that was parsed: the
/// elements, their fields with the fields below them, and the relations.
pub proof fn lemma_parsed_located(tokens: Seq<TokenView>, file: Seq<char>)
    ensures
        parsed_located(parsed(tokens, file), seq![file]),
        parsed(tokens, file).source == file,
{
    lemma_known_one(file, file);
    lemma_run_located(initial(file), tokens, 0, file);
    lemma_finalized(run(initial(file), tokens, 0), file);
}

} // verus!
