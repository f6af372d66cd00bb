//! The resolver: the elements of all files in one tree, with duplicate names
//! and names that are ambiguous across namespaces reported, inherited fields
//! put in front of the own fields of each model and view, registered
//! attributes marked, and circular imports reported.

use vstd::prelude::*;
use crate::catalogs::{AST_VERSION, PARSER_VERSION};
use crate::field_node::{find_attr, has_attr};
use crate::imports::{circular_imports, detect_circular_imports, lemma_visit_one, unvisited};
use crate::report::{error_at, error_view, model_type_word, report, say, say_number, type_word};
use crate::text::{decimal, join, str_eq};
use crate::types::{
    field_view, FieldAttribute, FieldAttributeView, FieldNode, FieldNodeView, M3lAst, M3lAstView,
    ProjectInfo, ProjectInfoView, clone_opt_string, AttributeRegistryEntry,
    AttributeRegistryEntryView, Definition, DefinitionView, Diagnostic, DiagnosticView, EnumNode,
    EnumNodeView, ModelNode, ModelNodeView, ModelType, ParsedFile, ParsedFileView,
};

verus! {

/// The models of all files, in the order of the files.
pub open spec fn all_models(files: Seq<ParsedFileView>) -> Seq<ModelNodeView>
    decreases files.len(),
{
    if files.len() == 0 {
        Seq::empty()
    } else {
        all_models(files.drop_last()) + files.last().models
    }
}

/// The enums of all files, in the order of the files.
pub open spec fn all_enums(files: Seq<ParsedFileView>) -> Seq<EnumNodeView>
    decreases files.len(),
{
    if files.len() == 0 {
        Seq::empty()
    } else {
        all_enums(files.drop_last()) + files.last().enums
    }
}

/// The interfaces of all files, in the order of the files.
pub open spec fn all_interfaces(files: Seq<ParsedFileView>) -> Seq<ModelNodeView>
    decreases files.len(),
{
    if files.len() == 0 {
        Seq::empty()
    } else {
        all_interfaces(files.drop_last()) + files.last().interfaces
    }
}

/// The views of all files, in the order of the files.
pub open spec fn all_views(files: Seq<ParsedFileView>) -> Seq<ModelNodeView>
    decreases files.len(),
{
    if files.len() == 0 {
        Seq::empty()
    } else {
        all_views(files.drop_last()) + files.last().views
    }
}

/// The attribute definitions of all files, in the order of the files.
pub open spec fn all_registry(files: Seq<ParsedFileView>) -> Seq<AttributeRegistryEntryView>
    decreases files.len(),
{
    if files.len() == 0 {
        Seq::empty()
    } else {
        all_registry(files.drop_last()) + files.last().attribute_registry
    }
}

/// The paths of the files, in order.
pub open spec fn sources_of(files: Seq<ParsedFileView>) -> Seq<Seq<char>> {
    Seq::new(files.len(), |i: int| files[i].source)
}

fn append_models(list: &mut Vec<ModelNode>, more: &Vec<ModelNode>)
    ensures
        final(list).deep_view() == old(list).deep_view() + more.deep_view(),
{
    let ghost before = list.deep_view();
    let mut i: usize = 0;
    while i < more.len()
        invariant
            i <= more@.len(),
            list.deep_view() == before + more.deep_view().take(i as int),
        decreases more.len() - i,
    {
        let ghost now = list.deep_view();
        let m = more[i].clone();
        list.push(m);
        proof {
            assert(list.deep_view() =~= now.push(m.deep_view()));
            assert(more.deep_view().take(i + 1) =~= more.deep_view().take(i as int).push(
                more@[i as int].deep_view(),
            ));
        }
        i += 1;
    }
    proof {
        assert(more.deep_view().take(more@.len() as int) =~= more.deep_view());
    }
}

fn append_enums(list: &mut Vec<EnumNode>, more: &Vec<EnumNode>)
    ensures
        final(list).deep_view() == old(list).deep_view() + more.deep_view(),
{
    let ghost before = list.deep_view();
    let mut i: usize = 0;
    while i < more.len()
        invariant
            i <= more@.len(),
            list.deep_view() == before + more.deep_view().take(i as int),
        decreases more.len() - i,
    {
        let ghost now = list.deep_view();
        let m = more[i].clone();
        list.push(m);
        proof {
            assert(list.deep_view() =~= now.push(m.deep_view()));
            assert(more.deep_view().take(i + 1) =~= more.deep_view().take(i as int).push(
                more@[i as int].deep_view(),
            ));
        }
        i += 1;
    }
    proof {
        assert(more.deep_view().take(more@.len() as int) =~= more.deep_view());
    }
}

fn append_registry(list: &mut Vec<AttributeRegistryEntry>, more: &Vec<AttributeRegistryEntry>)
    ensures
        final(list).deep_view() == old(list).deep_view() + more.deep_view(),
{
    let ghost before = list.deep_view();
    let mut i: usize = 0;
    while i < more.len()
        invariant
            i <= more@.len(),
            list.deep_view() == before + more.deep_view().take(i as int),
        decreases more.len() - i,
    {
        let ghost now = list.deep_view();
        let m = more[i].clone();
        list.push(m);
        proof {
            assert(list.deep_view() =~= now.push(m.deep_view()));
            assert(more.deep_view().take(i + 1) =~= more.deep_view().take(i as int).push(
                more@[i as int].deep_view(),
            ));
        }
        i += 1;
    }
    proof {
        assert(more.deep_view().take(more@.len() as int) =~= more.deep_view());
    }
}

/// The elements of all files, each kind in one list, and the paths of the files.
pub struct Collected {
    pub models: Vec<ModelNode>,
    pub enums: Vec<EnumNode>,
    pub interfaces: Vec<ModelNode>,
    pub views: Vec<ModelNode>,
    pub registry: Vec<AttributeRegistryEntry>,
    pub sources: Vec<String>,
}

fn collect(files: &[ParsedFile]) -> (r: Collected)
    ensures
        r.models.deep_view() == all_models(files.deep_view()),
        r.enums.deep_view() == all_enums(files.deep_view()),
        r.interfaces.deep_view() == all_interfaces(files.deep_view()),
        r.views.deep_view() == all_views(files.deep_view()),
        r.registry.deep_view() == all_registry(files.deep_view()),
        r.sources.deep_view() == sources_of(files.deep_view()),
{
    let mut r = Collected {
        models: Vec::new(),
        enums: Vec::new(),
        interfaces: Vec::new(),
        views: Vec::new(),
        registry: Vec::new(),
        sources: Vec::new(),
    };
    let ghost all = files.deep_view();
    let mut i: usize = 0;
    proof {
        assert(all.take(0) =~= Seq::empty());
        assert(r.models.deep_view() =~= Seq::empty());
        assert(r.enums.deep_view() =~= Seq::empty());
        assert(r.interfaces.deep_view() =~= Seq::empty());
        assert(r.views.deep_view() =~= Seq::empty());
        assert(r.registry.deep_view() =~= Seq::empty());
    }
    while i < files.len()
        invariant
            i <= files@.len(),
            all == files.deep_view(),
            r.models.deep_view() == all_models(all.take(i as int)),
            r.enums.deep_view() == all_enums(all.take(i as int)),
            r.interfaces.deep_view() == all_interfaces(all.take(i as int)),
            r.views.deep_view() == all_views(all.take(i as int)),
            r.registry.deep_view() == all_registry(all.take(i as int)),
            r.sources@.len() == i,
            forall|j: int| 0 <= j < i ==> r.sources@[j]@ == all[j].source,
        decreases files.len() - i,
    {
        proof {
            assert(all.take(i + 1).drop_last() =~= all.take(i as int));
            assert(all.take(i + 1).last() == files@[i as int].deep_view());
        }
        r.sources.push(files[i].source.clone());
        append_models(&mut r.models, &files[i].models);
        append_enums(&mut r.enums, &files[i].enums);
        append_models(&mut r.interfaces, &files[i].interfaces);
        append_models(&mut r.views, &files[i].views);
        append_registry(&mut r.registry, &files[i].attribute_registry);
        i += 1;
    }
    proof {
        assert(all.take(files@.len() as int) =~= all);
        assert(r.sources.deep_view() =~= sources_of(all));
    }
    r
}

/// The namespace of the last of the first `upto` files whose path is `source`.
pub open spec fn source_namespace(files: Seq<ParsedFileView>, source: Seq<char>, upto: int) -> Option<
    Seq<char>,
>
    decreases upto,
{
    if upto <= 0 || upto > files.len() {
        None
    } else if files[upto - 1].source == source {
        files[upto - 1].namespace
    } else {
        source_namespace(files, source, upto - 1)
    }
}

fn namespace_of(files: &[ParsedFile], source: &str) -> (r: Option<String>)
    ensures
        r.deep_view() == source_namespace(files.deep_view(), source@, files@.len() as int),
{
    let mut i: usize = files.len();
    while i > 0
        invariant
            i <= files@.len(),
            source_namespace(files.deep_view(), source@, i as int) == source_namespace(
                files.deep_view(),
                source@,
                files@.len() as int,
            ),
        decreases i,
    {
        proof {
            assert(files.deep_view()[i - 1] == files@[i - 1].deep_view());
        }
        if str_eq(files[i - 1].source.as_str(), source) {
            return clone_opt_string(&files[i - 1].namespace);
        }
        i -= 1;
    }
    None
}

/// The definition that a model, an interface or a view makes, as a `kind`.
pub open spec fn model_definition(
    m: ModelNodeView,
    kind: ModelType,
    files: Seq<ParsedFileView>,
) -> DefinitionView {
    DefinitionView {
        name: m.name,
        kind: kind,
        file: m.source,
        line: m.line,
        namespace: source_namespace(files, m.source, files.len() as int),
    }
}

/// The definitions that a list of models, interfaces or views makes.
pub open spec fn model_definitions(
    list: Seq<ModelNodeView>,
    kind: ModelType,
    files: Seq<ParsedFileView>,
) -> Seq<DefinitionView> {
    Seq::new(list.len(), |i: int| model_definition(list[i], kind, files))
}

/// The definitions that a list of enums makes.
pub open spec fn enum_definitions(list: Seq<EnumNodeView>, files: Seq<ParsedFileView>) -> Seq<
    DefinitionView,
> {
    Seq::new(
        list.len(),
        |i: int|
            DefinitionView {
                name: list[i].name,
                kind: ModelType::Enum,
                file: list[i].source,
                line: list[i].line,
                namespace: source_namespace(files, list[i].source, files.len() as int),
            },
    )
}

/// All top-level names: models first, then enums, interfaces and views.
pub open spec fn definitions(files: Seq<ParsedFileView>) -> Seq<DefinitionView> {
    model_definitions(all_models(files), ModelType::Model, files) + enum_definitions(
        all_enums(files),
        files,
    ) + model_definitions(all_interfaces(files), ModelType::Interface, files)
        + model_definitions(all_views(files), ModelType::View, files)
}

fn add_model_definitions(
    defs: &mut Vec<Definition>,
    list: &Vec<ModelNode>,
    kind: ModelType,
    files: &[ParsedFile],
)
    ensures
        final(defs).deep_view() == old(defs).deep_view() + model_definitions(
            list.deep_view(),
            kind,
            files.deep_view(),
        ),
{
    let ghost before = defs.deep_view();
    let ghost all = model_definitions(list.deep_view(), kind, files.deep_view());
    let mut i: usize = 0;
    while i < list.len()
        invariant
            i <= list@.len(),
            all == model_definitions(list.deep_view(), kind, files.deep_view()),
            defs.deep_view() == before + all.take(i as int),
        decreases list.len() - i,
    {
        let ghost now = defs.deep_view();
        let m = &list[i];
        proof {
            assert(list.deep_view()[i as int] == m.deep_view());
        }
        let d = Definition {
            name: m.name.clone(),
            kind,
            file: m.source.clone(),
            line: m.line,
            namespace: namespace_of(files, m.source.as_str()),
        };
        defs.push(d);
        proof {
            assert(defs.deep_view() =~= now.push(d.deep_view()));
            assert(all.take(i + 1) =~= all.take(i as int).push(all[i as int]));
        }
        i += 1;
    }
    proof {
        assert(all.take(list@.len() as int) =~= all);
    }
}

fn add_enum_definitions(defs: &mut Vec<Definition>, list: &Vec<EnumNode>, files: &[ParsedFile])
    ensures
        final(defs).deep_view() == old(defs).deep_view() + enum_definitions(
            list.deep_view(),
            files.deep_view(),
        ),
{
    let ghost before = defs.deep_view();
    let ghost all = enum_definitions(list.deep_view(), files.deep_view());
    let mut i: usize = 0;
    while i < list.len()
        invariant
            i <= list@.len(),
            all == enum_definitions(list.deep_view(), files.deep_view()),
            defs.deep_view() == before + all.take(i as int),
        decreases list.len() - i,
    {
        let ghost now = defs.deep_view();
        let m = &list[i];
        proof {
            assert(list.deep_view()[i as int] == m.deep_view());
        }
        let d = Definition {
            name: m.name.clone(),
            kind: ModelType::Enum,
            file: m.source.clone(),
            line: m.line,
            namespace: namespace_of(files, m.source.as_str()),
        };
        defs.push(d);
        proof {
            assert(defs.deep_view() =~= now.push(d.deep_view()));
            assert(all.take(i + 1) =~= all.take(i as int).push(all[i as int]));
        }
        i += 1;
    }
    proof {
        assert(all.take(list@.len() as int) =~= all);
    }
}

/// The position of the first definition of `name` from `from` on, or the
/// number of definitions.
pub open spec fn def_index(defs: Seq<DefinitionView>, name: Seq<char>, from: int) -> int
    decreases defs.len() - from,
{
    if from < 0 || from >= defs.len() {
        defs.len() as int
    } else if defs[from].name == name {
        from
    } else {
        def_index(defs, name, from + 1)
    }
}

pub proof fn lemma_def_index(defs: Seq<DefinitionView>, name: Seq<char>, from: int)
    requires
        0 <= from <= defs.len(),
    ensures
        from <= def_index(defs, name, from) <= defs.len(),
        def_index(defs, name, from) < defs.len() ==> defs[def_index(defs, name, from)].name
            == name,
        forall|j: int| from <= j < def_index(defs, name, from) ==> defs[j].name != name,
    decreases defs.len() - from,
{
    if from < defs.len() && defs[from].name != name {
        lemma_def_index(defs, name, from + 1);
    }
}

fn find_definition(defs: &Vec<Definition>, name: &str, from: usize) -> (r: usize)
    requires
        from <= defs@.len(),
    ensures
        r == def_index(defs.deep_view(), name@, from as int),
        from <= r <= defs@.len(),
        r < defs@.len() ==> defs@[r as int].name@ == name@,
{
    let mut i: usize = from;
    while i < defs.len()
        invariant
            from <= i <= defs@.len(),
            def_index(defs.deep_view(), name@, i as int) == def_index(
                defs.deep_view(),
                name@,
                from as int,
            ),
        decreases defs.len() - i,
    {
        proof {
            assert(defs.deep_view()[i as int].name == defs@[i as int].name@);
        }
        if str_eq(defs[i].name.as_str(), name) {
            return i;
        }
        i += 1;
    }
    i
}

/// The error for the definition at `i`, whose name was defined before, at `first`.
pub open spec fn duplicate_error(defs: Seq<DefinitionView>, i: int, first: int) -> DiagnosticView {
    error_view(
        "M3L-E005"@,
        defs[i].file,
        defs[i].line,
        "Duplicate "@ + type_word(defs[i].kind) + " name \""@ + defs[i].name
            + "\" (first defined in "@ + defs[first].file + ":"@ + decimal(
            defs[first].line as nat,
        ) + ")"@,
    )
}

/// The errors for the duplicate names among the definitions from `i` on,
/// after those in `acc`: one for each definition whose name was defined
/// before it, naming the place of the first definition.
pub open spec fn duplicate_errors_from(defs: Seq<DefinitionView>, i: int, acc: Seq<DiagnosticView>) -> Seq<
    DiagnosticView,
>
    decreases defs.len() - i,
{
    if i < 0 || i >= defs.len() {
        acc
    } else {
        let first = def_index(defs, defs[i].name, 0);
        if 0 <= first < i {
            duplicate_errors_from(defs, i + 1, acc.push(duplicate_error(defs, i, first)))
        } else {
            duplicate_errors_from(defs, i + 1, acc)
        }
    }
}

/// Reports a definition whose name was defined before.
pub fn check_duplicate(defs: &Vec<Definition>, i: usize, errors: &mut Vec<Diagnostic>)
    requires
        i < defs@.len(),
    ensures
        final(errors).deep_view() == {
            let first = def_index(defs.deep_view(), defs.deep_view()[i as int].name, 0);
            if 0 <= first < i {
                old(errors).deep_view().push(duplicate_error(defs.deep_view(), i as int, first))
            } else {
                old(errors).deep_view()
            }
        },
{
    let d = &defs[i];
    proof {
        assert(defs.deep_view()[i as int] == d.deep_view());
    }
    let first = find_definition(defs, d.name.as_str(), 0);
    if first < i {
        let f = &defs[first];
        proof {
            assert(defs.deep_view()[first as int] == f.deep_view());
        }
        let mut m: Vec<char> = Vec::new();
        say(&mut m, "Duplicate ");
        say(&mut m, model_type_word(d.kind));
        say(&mut m, " name \"");
        say(&mut m, d.name.as_str());
        say(&mut m, "\" (first defined in ");
        say(&mut m, f.file.as_str());
        say(&mut m, ":");
        say_number(&mut m, f.line);
        say(&mut m, ")");
        proof {
            assert(m@ =~= "Duplicate "@ + type_word(d.kind) + " name \""@ + d.name@
                + "\" (first defined in "@ + f.file@ + ":"@ + decimal(f.line as nat) + ")"@);
        }
        report(errors, error_at("M3L-E005", d.file.as_str(), d.line, &m));
    }
}

fn check_duplicates(defs: &Vec<Definition>, errors: &mut Vec<Diagnostic>)
    ensures
        final(errors).deep_view() == duplicate_errors_from(
            defs.deep_view(),
            0,
            old(errors).deep_view(),
        ),
{
    let mut i: usize = 0;
    while i < defs.len()
        invariant
            i <= defs@.len(),
            duplicate_errors_from(defs.deep_view(), i as int, errors.deep_view())
                == duplicate_errors_from(defs.deep_view(), 0, old(errors).deep_view()),
        decreases defs.len() - i,
    {
        check_duplicate(defs, i, errors);
        i += 1;
    }
}

/// The namespaces of the definitions of `name` from `i` on, each once in
/// the order of its first definition, after those in `acc`.
pub open spec fn namespaces_from(
    defs: Seq<DefinitionView>,
    name: Seq<char>,
    i: int,
    acc: Seq<Option<Seq<char>>>,
) -> Seq<Option<Seq<char>>>
    decreases defs.len() - i,
{
    if i < 0 || i >= defs.len() {
        acc
    } else if defs[i].name == name && !acc.contains(defs[i].namespace) {
        namespaces_from(defs, name, i + 1, acc.push(defs[i].namespace))
    } else {
        namespaces_from(defs, name, i + 1, acc)
    }
}

/// A namespace in a message.
pub open spec fn namespace_word(ns: Option<Seq<char>>) -> Seq<char> {
    match ns {
        Some(n) => n,
        None => "(none)"@,
    }
}

/// The namespaces in a message, in order.
pub open spec fn namespace_words(list: Seq<Option<Seq<char>>>) -> Seq<Seq<char>> {
    Seq::new(list.len(), |i: int| namespace_word(list[i]))
}

/// The error for a name that is defined under the namespaces `spaces`, at
/// its second definition, which is at `second`.
pub open spec fn ambiguity_error(
    defs: Seq<DefinitionView>,
    second: int,
    spaces: Seq<Option<Seq<char>>>,
) -> DiagnosticView {
    error_view(
        "M3L-E008"@,
        defs[second].file,
        defs[second].line,
        "Ambiguous model reference \""@ + defs[second].name + "\" in namespaces "@ + join(
            namespace_words(spaces),
            seq![',', ' '],
        ),
    )
}

/// The errors for the names among the definitions from `i` on that are
/// defined under two namespaces or more, after those in `acc`: one for each
/// such name, at its second definition, in the order of the first ones.
pub open spec fn ambiguity_errors_from(defs: Seq<DefinitionView>, i: int, acc: Seq<DiagnosticView>) -> Seq<
    DiagnosticView,
>
    decreases defs.len() - i,
{
    if i < 0 || i >= defs.len() {
        acc
    } else {
        let name = defs[i].name;
        let second = def_index(defs, name, i + 1);
        let spaces = namespaces_from(defs, name, 0, Seq::empty());
        if def_index(defs, name, 0) == i && 0 <= second < defs.len() && spaces.len() >= 2 {
            ambiguity_errors_from(defs, i + 1, acc.push(ambiguity_error(defs, second, spaces)))
        } else {
            ambiguity_errors_from(defs, i + 1, acc)
        }
    }
}

fn has_namespace(list: &Vec<Option<String>>, ns: &Option<String>) -> (r: bool)
    ensures
        r == list.deep_view().contains(ns.deep_view()),
{
    let mut i: usize = 0;
    while i < list.len()
        invariant
            i <= list@.len(),
            forall|j: int| 0 <= j < i ==> list.deep_view()[j] != ns.deep_view(),
        decreases list.len() - i,
    {
        proof {
            assert(list.deep_view()[i as int] == list@[i as int].deep_view());
        }
        let same = match (&list[i], ns) {
            (Some(a), Some(b)) => str_eq(a.as_str(), b.as_str()),
            (None, None) => true,
            _ => false,
        };
        if same {
            proof {
                assert(list.deep_view()[i as int] == ns.deep_view());
            }
            return true;
        }
        i += 1;
    }
    false
}

fn namespaces_of_name(defs: &Vec<Definition>, name: &str) -> (r: Vec<Option<String>>)
    ensures
        r.deep_view() == namespaces_from(defs.deep_view(), name@, 0, Seq::empty()),
{
    let mut out: Vec<Option<String>> = Vec::new();
    let mut i: usize = 0;
    proof {
        assert(out.deep_view() =~= Seq::empty());
    }
    while i < defs.len()
        invariant
            i <= defs@.len(),
            namespaces_from(defs.deep_view(), name@, i as int, out.deep_view()) == namespaces_from(
                defs.deep_view(),
                name@,
                0,
                Seq::empty(),
            ),
        decreases defs.len() - i,
    {
        let d = &defs[i];
        proof {
            assert(defs.deep_view()[i as int] == d.deep_view());
        }
        if str_eq(d.name.as_str(), name) && !has_namespace(&out, &d.namespace) {
            let ghost before = out.deep_view();
            out.push(clone_opt_string(&d.namespace));
            proof {
                assert(out.deep_view() =~= before.push(d.namespace.deep_view()));
            }
        }
        i += 1;
    }
    out
}

fn namespace_list(spaces: &Vec<Option<String>>) -> (r: Vec<char>)
    ensures
        r@ == join(namespace_words(spaces.deep_view()), seq![',', ' ']),
{
    let mut out: Vec<char> = Vec::new();
    let ghost all = namespace_words(spaces.deep_view());
    let mut k: usize = 0;
    proof {
        assert(all.take(0) =~= Seq::empty());
    }
    while k < spaces.len()
        invariant
            k <= spaces@.len(),
            all == namespace_words(spaces.deep_view()),
            out@ == join(all.take(k as int), seq![',', ' ']),
        decreases spaces.len() - k,
    {
        let ghost before = all.take(k as int);
        let ghost after = all.take(k + 1);
        let ghost start = out@;
        proof {
            assert(spaces.deep_view()[k as int] == spaces@[k as int].deep_view());
            assert(after.drop_last() =~= before);
        }
        if k > 0 {
            out.push(',');
            out.push(' ');
        }
        match &spaces[k] {
            Some(n) => {
                say(&mut out, n.as_str());
            },
            None => {
                say(&mut out, "(none)");
            },
        }
        proof {
            if k > 0 {
                assert(out@ =~= start + seq![',', ' '] + after.last());
            } else {
                assert(out@ =~= after.last());
            }
        }
        k += 1;
    }
    proof {
        assert(all.take(spaces@.len() as int) =~= all);
    }
    out
}

fn check_ambiguities(defs: &Vec<Definition>, errors: &mut Vec<Diagnostic>)
    ensures
        final(errors).deep_view() == ambiguity_errors_from(
            defs.deep_view(),
            0,
            old(errors).deep_view(),
        ),
{
    let mut i: usize = 0;
    while i < defs.len()
        invariant
            i <= defs@.len(),
            ambiguity_errors_from(defs.deep_view(), i as int, errors.deep_view())
                == ambiguity_errors_from(defs.deep_view(), 0, old(errors).deep_view()),
        decreases defs.len() - i,
    {
        let d = &defs[i];
        proof {
            assert(defs.deep_view()[i as int] == d.deep_view());
        }
        let name = d.name.as_str();
        if find_definition(defs, name, 0) == i {
            let second = find_definition(defs, name, i + 1);
            if second < defs.len() {
                let spaces = namespaces_of_name(defs, name);
                if spaces.len() >= 2 {
                    let s = &defs[second];
                    proof {
                        assert(defs.deep_view()[second as int] == s.deep_view());
                    }
                    let mut m: Vec<char> = Vec::new();
                    say(&mut m, "Ambiguous model reference \"");
                    say(&mut m, s.name.as_str());
                    say(&mut m, "\" in namespaces ");
                    crate::text::push_all(&mut m, &namespace_list(&spaces));
                    proof {
                        assert(m@ =~= "Ambiguous model reference \""@ + s.name@
                            + "\" in namespaces "@ + join(
                            namespace_words(spaces.deep_view()),
                            seq![',', ' '],
                        ));
                    }
                    report(errors, error_at("M3L-E008", s.file.as_str(), s.line, &m));
                }
            }
        }
        i += 1;
    }
}

/// The last of the first `upto` models whose name is `name`.
pub open spec fn model_index(list: Seq<ModelNodeView>, name: Seq<char>, upto: int) -> Option<int>
    decreases upto,
{
    if upto <= 0 || upto > list.len() {
        None
    } else if list[upto - 1].name == name {
        Some(upto - 1)
    } else {
        model_index(list, name, upto - 1)
    }
}

pub proof fn lemma_model_index(list: Seq<ModelNodeView>, name: Seq<char>, upto: int)
    requires
        0 <= upto <= list.len(),
    ensures
        model_index(list, name, upto) matches Some(i) ==> 0 <= i < upto && list[i].name == name,
    decreases upto,
{
    if upto > 0 && list[upto - 1].name != name {
        lemma_model_index(list, name, upto - 1);
    }
}

fn find_model(list: &Vec<ModelNode>, name: &str) -> (r: Option<usize>)
    ensures
        crate::scan::position(r) == model_index(list.deep_view(), name@, list@.len() as int),
        r matches Some(i) ==> i < list@.len(),
{
    let mut i: usize = list.len();
    while i > 0
        invariant
            i <= list@.len(),
            model_index(list.deep_view(), name@, i as int) == model_index(
                list.deep_view(),
                name@,
                list@.len() as int,
            ),
        decreases i,
    {
        proof {
            assert(list.deep_view()[i - 1].name == list@[i - 1].name@);
        }
        if str_eq(list[i - 1].name.as_str(), name) {
            return Some(i - 1);
        }
        i -= 1;
    }
    None
}

/// The parent that `name` stands for, as a position among the models
/// followed by the interfaces: the last model of that name, or else the
/// last interface of that name.
pub open spec fn parent_index(
    models: Seq<ModelNodeView>,
    interfaces: Seq<ModelNodeView>,
    name: Seq<char>,
) -> Option<int> {
    match model_index(models, name, models.len() as int) {
        Some(i) => Some(i),
        None => match model_index(interfaces, name, interfaces.len() as int) {
            Some(j) => Some(models.len() + j),
            None => None,
        },
    }
}

/// The model or interface at position `p` among the models followed by the interfaces.
pub open spec fn parent_node(
    models: Seq<ModelNodeView>,
    interfaces: Seq<ModelNodeView>,
    p: int,
) -> ModelNodeView {
    if p < models.len() {
        models[p]
    } else {
        interfaces[p - models.len()]
    }
}

/// The position of the first field with the name `name` from `from` on, or
/// the number of fields.
pub open spec fn field_index(fields: Seq<FieldNodeView>, name: Seq<char>, from: int) -> int
    decreases fields.len() - from,
{
    if from < 0 || from >= fields.len() {
        fields.len() as int
    } else if fields[from].name == name {
        from
    } else {
        field_index(fields, name, from + 1)
    }
}

pub proof fn lemma_field_index(fields: Seq<FieldNodeView>, name: Seq<char>, from: int)
    requires
        0 <= from <= fields.len(),
    ensures
        from <= field_index(fields, name, from) <= fields.len(),
        field_index(fields, name, from) < fields.len() ==> fields[field_index(
            fields,
            name,
            from,
        )].name == name,
        forall|j: int| from <= j < field_index(fields, name, from) ==> fields[j].name != name,
    decreases fields.len() - from,
{
    if from < fields.len() && fields[from].name != name {
        lemma_field_index(fields, name, from + 1);
    }
}

/// The position of the first field with the name `name`.
pub fn find_field(fields: &Vec<FieldNode>, name: &str) -> (r: usize)
    ensures
        r == field_index(fields.deep_view(), name@, 0),
        r <= fields@.len(),
        r < fields@.len() ==> fields@[r as int].name@ == name@,
{
    let mut i: usize = 0;
    while i < fields.len()
        invariant
            i <= fields@.len(),
            field_index(fields.deep_view(), name@, i as int) == field_index(
                fields.deep_view(),
                name@,
                0,
            ),
        decreases fields.len() - i,
    {
        proof {
            assert(fields.deep_view()[i as int].name == fields@[i as int].name@);
        }
        if str_eq(fields[i].name.as_str(), name) {
            return i;
        }
        i += 1;
    }
    i
}

/// The inherited fields with those of `more` from the `k`-th on added, but
/// for those whose name is among them already.
pub open spec fn with_inherited(
    inherited: Seq<FieldNodeView>,
    more: Seq<FieldNodeView>,
    k: int,
) -> Seq<FieldNodeView>
    decreases more.len() - k,
{
    if k < 0 || k >= more.len() {
        inherited
    } else if field_index(inherited, more[k].name, 0) < inherited.len() {
        with_inherited(inherited, more, k + 1)
    } else {
        with_inherited(inherited.push(more[k]), more, k + 1)
    }
}

fn add_inherited(inherited: &mut Vec<FieldNode>, more: &Vec<FieldNode>)
    ensures
        final(inherited).deep_view() == with_inherited(
            old(inherited).deep_view(),
            more.deep_view(),
            0,
        ),
{
    let mut k: usize = 0;
    while k < more.len()
        invariant
            k <= more@.len(),
            with_inherited(inherited.deep_view(), more.deep_view(), k as int) == with_inherited(
                old(inherited).deep_view(),
                more.deep_view(),
                0,
            ),
        decreases more.len() - k,
    {
        proof {
            assert(more.deep_view()[k as int] == field_view(&more@[k as int]));
        }
        if find_field(inherited, more[k].name.as_str()) >= inherited.len() {
            let ghost before = inherited.deep_view();
            let f = more[k].clone();
            inherited.push(f);
            proof {
                assert(inherited.deep_view() =~= before.push(field_view(&f)));
            }
        }
        k += 1;
    }
}

/// The error for a parent `name` of `child` that is not defined anywhere.
pub open spec fn unresolved_error(child: ModelNodeView, name: Seq<char>) -> DiagnosticView {
    error_view(
        "M3L-E007"@,
        child.source,
        child.line,
        "Unresolved inheritance reference \""@ + name + "\" in model \""@ + child.name + "\""@,
    )
}

/// What `child` inherits through the parent `name`: the fields, the parents
/// that are done, and the errors, each after those in `st`. `visiting`
/// marks the parents on the way from `child` to `name`; a parent that is
/// done or on the way adds nothing, so a cycle ends there. The parents of a
/// parent come before the parent. A name that is defined nowhere is an error.
pub open spec fn inherit_from(
    models: Seq<ModelNodeView>,
    interfaces: Seq<ModelNodeView>,
    defs: Seq<DefinitionView>,
    child: ModelNodeView,
    name: Seq<char>,
    visiting: Seq<bool>,
    st: (Seq<FieldNodeView>, Seq<bool>, Seq<DiagnosticView>),
) -> (Seq<FieldNodeView>, Seq<bool>, Seq<DiagnosticView>)
    decreases unvisited(visiting), 0nat,
{
    match parent_index(models, interfaces, name) {
        None => if def_index(defs, name, 0) < defs.len() {
            st
        } else {
            (st.0, st.1, st.2.push(unresolved_error(child, name)))
        },
        Some(p) => if 0 <= p < visiting.len() && p < st.1.len() && p < models.len()
            + interfaces.len() && !visiting[p] && !st.1[p] && unvisited(visiting.update(p, true))
            < unvisited(visiting) {
            let parent = parent_node(models, interfaces, p);
            let r = inherit_all(
                models,
                interfaces,
                defs,
                child,
                parent.inherits,
                0,
                visiting.update(p, true),
                st,
            );
            if p < r.1.len() {
                (with_inherited(r.0, parent.fields, 0), r.1.update(p, true), r.2)
            } else {
                r
            }
        } else {
            st
        },
    }
}

/// What `child` inherits through the parents `names` from the `k`-th on.
pub open spec fn inherit_all(
    models: Seq<ModelNodeView>,
    interfaces: Seq<ModelNodeView>,
    defs: Seq<DefinitionView>,
    child: ModelNodeView,
    names: Seq<Seq<char>>,
    k: int,
    visiting: Seq<bool>,
    st: (Seq<FieldNodeView>, Seq<bool>, Seq<DiagnosticView>),
) -> (Seq<FieldNodeView>, Seq<bool>, Seq<DiagnosticView>)
    decreases unvisited(visiting), 1 + names.len() - k,
{
    if k < 0 || k >= names.len() {
        st
    } else {
        inherit_all(
            models,
            interfaces,
            defs,
            child,
            names,
            k + 1,
            visiting,
            inherit_from(models, interfaces, defs, child, names[k], visiting, st),
        )
    }
}

fn find_parent(models: &Vec<ModelNode>, interfaces: &Vec<ModelNode>, name: &str, limit: usize) -> (r:
    Option<usize>)
    requires
        limit == models@.len() + interfaces@.len(),
    ensures
        crate::scan::position(r) == parent_index(
            models.deep_view(),
            interfaces.deep_view(),
            name@,
        ),
        r matches Some(p) ==> p < limit,
{
    match find_model(models, name) {
        Some(i) => Some(i),
        None => match find_model(interfaces, name) {
            Some(j) => Some(models.len() + j),
            None => None,
        },
    }
}

fn parent_at<'a>(models: &'a Vec<ModelNode>, interfaces: &'a Vec<ModelNode>, p: usize) -> (r:
    &'a ModelNode)
    requires
        p < models@.len() + interfaces@.len(),
    ensures
        r.deep_view() == parent_node(models.deep_view(), interfaces.deep_view(), p as int),
{
    if p < models.len() {
        &models[p]
    } else {
        &interfaces[p - models.len()]
    }
}

fn collect_fields(
    name: &str,
    child: &ModelNode,
    models: &Vec<ModelNode>,
    interfaces: &Vec<ModelNode>,
    defs: &Vec<Definition>,
    inherited: &mut Vec<FieldNode>,
    resolved: &mut Vec<bool>,
    visiting: &mut Vec<bool>,
    errors: &mut Vec<Diagnostic>,
)
    requires
        old(visiting)@.len() == models@.len() + interfaces@.len(),
        old(resolved)@.len() == models@.len() + interfaces@.len(),
    ensures
        (final(inherited).deep_view(), final(resolved)@, final(errors).deep_view())
            == inherit_from(
            models.deep_view(),
            interfaces.deep_view(),
            defs.deep_view(),
            child.deep_view(),
            name@,
            old(visiting)@,
            (old(inherited).deep_view(), old(resolved)@, old(errors).deep_view()),
        ),
        final(visiting)@ == old(visiting)@,
        final(resolved)@.len() == old(resolved)@.len(),
    decreases unvisited(old(visiting)@), 0nat,
{
    let limit = visiting.len();
    match find_parent(models, interfaces, name, limit) {
        None => {
            if crate::resolver::find_definition(defs, name, 0) >= defs.len() {
                let mut m: Vec<char> = Vec::new();
                say(&mut m, "Unresolved inheritance reference \"");
                say(&mut m, name);
                say(&mut m, "\" in model \"");
                say(&mut m, child.name.as_str());
                say(&mut m, "\"");
                proof {
                    assert(m@ =~= "Unresolved inheritance reference \""@ + name@
                        + "\" in model \""@ + child.name@ + "\""@);
                }
                report(errors, error_at("M3L-E007", child.source.as_str(), child.line, &m));
            }
        },
        Some(p) => {
            if !visiting[p] && !resolved[p] {
                proof {
                    lemma_visit_one(visiting@, p as int);
                }
                let ghost before = visiting@;
                visiting.set(p, true);
                let parent = parent_at(models, interfaces, p);
                collect_all(
                    &parent.inherits,
                    0,
                    child,
                    models,
                    interfaces,
                    defs,
                    inherited,
                    resolved,
                    visiting,
                    errors,
                );
                add_inherited(inherited, &parent.fields);
                visiting.set(p, false);
                resolved.set(p, true);
                proof {
                    assert(visiting@ =~= before);
                }
            }
        },
    }
}

fn collect_all(
    names: &Vec<String>,
    from: usize,
    child: &ModelNode,
    models: &Vec<ModelNode>,
    interfaces: &Vec<ModelNode>,
    defs: &Vec<Definition>,
    inherited: &mut Vec<FieldNode>,
    resolved: &mut Vec<bool>,
    visiting: &mut Vec<bool>,
    errors: &mut Vec<Diagnostic>,
)
    requires
        from <= names@.len(),
        old(visiting)@.len() == models@.len() + interfaces@.len(),
        old(resolved)@.len() == models@.len() + interfaces@.len(),
    ensures
        (final(inherited).deep_view(), final(resolved)@, final(errors).deep_view())
            == inherit_all(
            models.deep_view(),
            interfaces.deep_view(),
            defs.deep_view(),
            child.deep_view(),
            names.deep_view(),
            from as int,
            old(visiting)@,
            (old(inherited).deep_view(), old(resolved)@, old(errors).deep_view()),
        ),
        final(visiting)@ == old(visiting)@,
        final(resolved)@.len() == old(resolved)@.len(),
    decreases unvisited(old(visiting)@), 1 + names@.len() - from,
{
    if from < names.len() {
        proof {
            assert(names.deep_view()[from as int] == names@[from as int]@);
        }
        collect_fields(
            names[from].as_str(),
            child,
            models,
            interfaces,
            defs,
            inherited,
            resolved,
            visiting,
            errors,
        );
        collect_all(
            names,
            from + 1,
            child,
            models,
            interfaces,
            defs,
            inherited,
            resolved,
            visiting,
            errors,
        );
    }
}

/// Whether one of the fields from `from` on has the name `name` and carries `@override`.
pub open spec fn overrides(own: Seq<FieldNodeView>, name: Seq<char>, from: int) -> bool
    decreases own.len() - from,
{
    if from < 0 || from >= own.len() {
        false
    } else if own[from].name == name && has_attr(own[from].attributes, "override"@) {
        true
    } else {
        overrides(own, name, from + 1)
    }
}

fn is_overridden(own: &Vec<FieldNode>, name: &str) -> (r: bool)
    ensures
        r == overrides(own.deep_view(), name@, 0),
{
    let mut i: usize = 0;
    while i < own.len()
        invariant
            i <= own@.len(),
            overrides(own.deep_view(), name@, i as int) == overrides(own.deep_view(), name@, 0),
        decreases own.len() - i,
    {
        proof {
            assert(own.deep_view()[i as int] == field_view(&own@[i as int]));
        }
        if str_eq(own[i].name.as_str(), name) && find_attr(&own[i].attributes, "override").is_some() {
            return true;
        }
        i += 1;
    }
    false
}

/// The inherited fields from the `k`-th on that no own field overrides,
/// after those in `acc`.
pub open spec fn kept_from(
    inherited: Seq<FieldNodeView>,
    own: Seq<FieldNodeView>,
    k: int,
    acc: Seq<FieldNodeView>,
) -> Seq<FieldNodeView>
    decreases inherited.len() - k,
{
    if k < 0 || k >= inherited.len() {
        acc
    } else if overrides(own, inherited[k].name, 0) {
        kept_from(inherited, own, k + 1, acc)
    } else {
        kept_from(inherited, own, k + 1, acc.push(inherited[k]))
    }
}

/// The fields of a model once it has inherited: the inherited fields that
/// it does not override, then its own.
pub open spec fn merged_fields(inherited: Seq<FieldNodeView>, own: Seq<FieldNodeView>) -> Seq<
    FieldNodeView,
> {
    kept_from(inherited, own, 0, Seq::empty()) + own
}

fn merge_fields(inherited: Vec<FieldNode>, own: Vec<FieldNode>) -> (r: Vec<FieldNode>)
    ensures
        r.deep_view() == merged_fields(inherited.deep_view(), own.deep_view()),
{
    let mut out: Vec<FieldNode> = Vec::new();
    let mut k: usize = 0;
    proof {
        assert(out.deep_view() =~= Seq::empty());
    }
    while k < inherited.len()
        invariant
            k <= inherited@.len(),
            kept_from(inherited.deep_view(), own.deep_view(), k as int, out.deep_view())
                == kept_from(inherited.deep_view(), own.deep_view(), 0, Seq::empty()),
        decreases inherited.len() - k,
    {
        proof {
            assert(inherited.deep_view()[k as int] == field_view(&inherited@[k as int]));
        }
        if !is_overridden(&own, inherited[k].name.as_str()) {
            let ghost before = out.deep_view();
            let f = inherited[k].clone();
            out.push(f);
            proof {
                assert(out.deep_view() =~= before.push(field_view(&f)));
            }
        }
        k += 1;
    }
    let ghost kept = out.deep_view();
    let mut own = own;
    let ghost rest = own.deep_view();
    out.append(&mut own);
    proof {
        assert(out.deep_view() =~= kept + rest);
    }
    out
}

/// The list with the fields that its element `i` inherits put in front of
/// its own, and the errors found on the way, after `errors`. The parents
/// are looked for among `models` and `interfaces`.
pub open spec fn resolve_in(
    list: Seq<ModelNodeView>,
    models: Seq<ModelNodeView>,
    interfaces: Seq<ModelNodeView>,
    defs: Seq<DefinitionView>,
    i: int,
    errors: Seq<DiagnosticView>,
) -> (Seq<ModelNodeView>, Seq<DiagnosticView>) {
    let m = list[i];
    if m.inherits.len() == 0 {
        (list, errors)
    } else {
        let none = Seq::new(models.len() + interfaces.len(), |j: int| false);
        let r = inherit_all(
            models,
            interfaces,
            defs,
            m,
            m.inherits,
            0,
            none,
            (Seq::empty(), none, errors),
        );
        (list.update(i, ModelNodeView { fields: merged_fields(r.0, m.fields), ..m }), r.2)
    }
}

/// The models with the fields that model `i` inherits put in front of its
/// own, and the errors found on the way, after `errors`.
pub open spec fn resolve_model(
    models: Seq<ModelNodeView>,
    interfaces: Seq<ModelNodeView>,
    defs: Seq<DefinitionView>,
    i: int,
    errors: Seq<DiagnosticView>,
) -> (Seq<ModelNodeView>, Seq<DiagnosticView>) {
    resolve_in(models, models, interfaces, defs, i, errors)
}

/// The views from the `i`-th on with their inherited fields; their parents
/// are models and interfaces.
pub open spec fn resolve_views_from(
    views: Seq<ModelNodeView>,
    models: Seq<ModelNodeView>,
    interfaces: Seq<ModelNodeView>,
    defs: Seq<DefinitionView>,
    i: int,
    errors: Seq<DiagnosticView>,
) -> (Seq<ModelNodeView>, Seq<DiagnosticView>)
    decreases views.len() - i,
{
    if i < 0 || i >= views.len() {
        (views, errors)
    } else {
        let r = resolve_in(views, models, interfaces, defs, i, errors);
        if r.0.len() == views.len() {
            resolve_views_from(r.0, models, interfaces, defs, i + 1, r.1)
        } else {
            r
        }
    }
}

/// The models from the `i`-th on resolved in order; a model that inherits
/// from one before it sees that one with its inherited fields.
pub open spec fn resolve_models_from(
    models: Seq<ModelNodeView>,
    interfaces: Seq<ModelNodeView>,
    defs: Seq<DefinitionView>,
    i: int,
    errors: Seq<DiagnosticView>,
) -> (Seq<ModelNodeView>, Seq<DiagnosticView>)
    decreases models.len() - i,
{
    if i < 0 || i >= models.len() {
        (models, errors)
    } else {
        let r = resolve_model(models, interfaces, defs, i, errors);
        if r.0.len() == models.len() {
            resolve_models_from(r.0, interfaces, defs, i + 1, r.1)
        } else {
            r
        }
    }
}

fn inherited_fields(
    child: &ModelNode,
    models: &Vec<ModelNode>,
    interfaces: &Vec<ModelNode>,
    defs: &Vec<Definition>,
    errors: &mut Vec<Diagnostic>,
) -> (r: Vec<FieldNode>)
    ensures
        (r.deep_view(), final(errors).deep_view()) == ({
            let none = Seq::new(models@.len() + interfaces@.len(), |j: int| false);
            let all = inherit_all(
                models.deep_view(),
                interfaces.deep_view(),
                defs.deep_view(),
                child.deep_view(),
                child.deep_view().inherits,
                0,
                none,
                (Seq::empty(), none, old(errors).deep_view()),
            );
            (all.0, all.2)
        }),
{
    let mut inherited: Vec<FieldNode> = Vec::new();
    let mut resolved = both_flags(models, interfaces);
    let mut visiting = both_flags(models, interfaces);
    proof {
        assert(inherited.deep_view() =~= Seq::empty());
    }
    collect_all(
        &child.inherits,
        0,
        child,
        models,
        interfaces,
        defs,
        &mut inherited,
        &mut resolved,
        &mut visiting,
        errors,
    );
    inherited
}

fn both_flags(models: &Vec<ModelNode>, interfaces: &Vec<ModelNode>) -> (r: Vec<bool>)
    ensures
        r@ == Seq::new(models@.len() + interfaces@.len(), |j: int| false),
{
    let mut out: Vec<bool> = Vec::new();
    let mut k: usize = 0;
    while k < models.len()
        invariant
            k <= models@.len(),
            out@.len() == k,
            forall|j: int| 0 <= j < out@.len() ==> !out@[j],
        decreases models.len() - k,
    {
        out.push(false);
        k += 1;
    }
    let mut k: usize = 0;
    while k < interfaces.len()
        invariant
            k <= interfaces@.len(),
            out@.len() == models@.len() + k,
            forall|j: int| 0 <= j < out@.len() ==> !out@[j],
        decreases interfaces.len() - k,
    {
        out.push(false);
        k += 1;
    }
    proof {
        assert(out@ =~= Seq::new(models@.len() + interfaces@.len(), |j: int| false));
    }
    out
}

fn set_fields(list: &mut Vec<ModelNode>, i: usize, inherited: Vec<FieldNode>)
    requires
        i < old(list)@.len(),
    ensures
        final(list).deep_view() == old(list).deep_view().update(
            i as int,
            (ModelNodeView {
                fields: merged_fields(inherited.deep_view(), old(list).deep_view()[i as int].fields),
                ..old(list).deep_view()[i as int]
            }),
        ),
        final(list)@.len() == old(list)@.len(),
{
    let ghost before = list.deep_view();
    proof {
        assert(before[i as int] == list@[i as int].deep_view());
    }
    let mut m = list.remove(i);
    let mut own: Vec<FieldNode> = Vec::new();
    core::mem::swap(&mut m.fields, &mut own);
    m.fields = merge_fields(inherited, own);
    list.insert(i, m);
    proof {
        assert(list.deep_view() =~= before.update(i as int, m.deep_view()));
    }
}

fn resolve_inheritance(
    i: usize,
    models: &mut Vec<ModelNode>,
    interfaces: &Vec<ModelNode>,
    defs: &Vec<Definition>,
    errors: &mut Vec<Diagnostic>,
)
    requires
        i < old(models)@.len(),
    ensures
        (final(models).deep_view(), final(errors).deep_view()) == resolve_model(
            old(models).deep_view(),
            interfaces.deep_view(),
            defs.deep_view(),
            i as int,
            old(errors).deep_view(),
        ),
        final(models)@.len() == old(models)@.len(),
{
    proof {
        assert(models.deep_view()[i as int] == models@[i as int].deep_view());
    }
    if models[i].inherits.len() == 0 {
        return ;
    }
    let inherited = inherited_fields(&models[i], models, interfaces, defs, errors);
    set_fields(models, i, inherited);
}

fn resolve_view_inheritance(
    i: usize,
    views: &mut Vec<ModelNode>,
    models: &Vec<ModelNode>,
    interfaces: &Vec<ModelNode>,
    defs: &Vec<Definition>,
    errors: &mut Vec<Diagnostic>,
)
    requires
        i < old(views)@.len(),
    ensures
        (final(views).deep_view(), final(errors).deep_view()) == resolve_in(
            old(views).deep_view(),
            models.deep_view(),
            interfaces.deep_view(),
            defs.deep_view(),
            i as int,
            old(errors).deep_view(),
        ),
        final(views)@.len() == old(views)@.len(),
{
    proof {
        assert(views.deep_view()[i as int] == views@[i as int].deep_view());
    }
    if views[i].inherits.len() == 0 {
        return ;
    }
    let inherited = inherited_fields(&views[i], models, interfaces, defs, errors);
    set_fields(views, i, inherited);
}

/// The error for the field at `k` of `m`, whose name an earlier field, at
/// `first`, has already.
pub open spec fn duplicate_field_error(m: ModelNodeView, k: int, first: int) -> DiagnosticView {
    error_view(
        "M3L-E005"@,
        m.fields[k].loc.file,
        m.fields[k].loc.line,
        "Duplicate field name \""@ + m.fields[k].name + "\" in "@ + type_word(m.model_type)
            + " \""@ + m.name + "\" (first at line "@ + decimal(m.fields[first].loc.line as nat)
            + ")"@,
    )
}

/// The errors for the fields of `m` from the `k`-th on whose name an
/// earlier field has already, after those in `acc`.
pub open spec fn duplicate_fields_from(m: ModelNodeView, k: int, acc: Seq<DiagnosticView>) -> Seq<
    DiagnosticView,
>
    decreases m.fields.len() - k,
{
    if k < 0 || k >= m.fields.len() {
        acc
    } else {
        let first = field_index(m.fields, m.fields[k].name, 0);
        if 0 <= first < k {
            duplicate_fields_from(m, k + 1, acc.push(duplicate_field_error(m, k, first)))
        } else {
            duplicate_fields_from(m, k + 1, acc)
        }
    }
}

/// The errors for duplicate field names in the models from the `i`-th on.
pub open spec fn duplicate_fields_in(list: Seq<ModelNodeView>, i: int, acc: Seq<DiagnosticView>) -> Seq<
    DiagnosticView,
>
    decreases list.len() - i,
{
    if i < 0 || i >= list.len() {
        acc
    } else {
        duplicate_fields_in(list, i + 1, duplicate_fields_from(list[i], 0, acc))
    }
}

/// Reports each field of `model` whose name an earlier field has already.
pub fn check_duplicate_fields(model: &ModelNode, errors: &mut Vec<Diagnostic>)
    ensures
        final(errors).deep_view() == duplicate_fields_from(
            model.deep_view(),
            0,
            old(errors).deep_view(),
        ),
{
    let ghost m = model.deep_view();
    let mut k: usize = 0;
    while k < model.fields.len()
        invariant
            k <= model.fields@.len(),
            m == model.deep_view(),
            duplicate_fields_from(m, k as int, errors.deep_view()) == duplicate_fields_from(
                m,
                0,
                old(errors).deep_view(),
            ),
        decreases model.fields.len() - k,
    {
        let f = &model.fields[k];
        proof {
            assert(m.fields[k as int] == field_view(f));
        }
        let first = find_field(&model.fields, f.name.as_str());
        if first < k {
            let g = &model.fields[first];
            proof {
                assert(m.fields[first as int] == field_view(g));
            }
            let mut t: Vec<char> = Vec::new();
            say(&mut t, "Duplicate field name \"");
            say(&mut t, f.name.as_str());
            say(&mut t, "\" in ");
            say(&mut t, model_type_word(model.model_type));
            say(&mut t, " \"");
            say(&mut t, model.name.as_str());
            say(&mut t, "\" (first at line ");
            say_number(&mut t, g.loc.line);
            say(&mut t, ")");
            proof {
                assert(t@ =~= "Duplicate field name \""@ + f.name@ + "\" in "@ + type_word(
                    model.model_type,
                ) + " \""@ + model.name@ + "\" (first at line "@ + decimal(g.loc.line as nat)
                    + ")"@);
            }
            report(errors, error_at("M3L-E005", f.loc.file.as_str(), f.loc.line, &t));
        }
        k += 1;
    }
}

fn check_all_duplicate_fields(list: &Vec<ModelNode>, errors: &mut Vec<Diagnostic>)
    ensures
        final(errors).deep_view() == duplicate_fields_in(
            list.deep_view(),
            0,
            old(errors).deep_view(),
        ),
{
    let mut i: usize = 0;
    while i < list.len()
        invariant
            i <= list@.len(),
            duplicate_fields_in(list.deep_view(), i as int, errors.deep_view())
                == duplicate_fields_in(list.deep_view(), 0, old(errors).deep_view()),
        decreases list.len() - i,
    {
        proof {
            assert(list.deep_view()[i as int] == list@[i as int].deep_view());
        }
        check_duplicate_fields(&list[i], errors);
        i += 1;
    }
}

/// The names of the registered attributes.
pub open spec fn registered_names(registry: Seq<AttributeRegistryEntryView>) -> Seq<Seq<char>> {
    Seq::new(registry.len(), |i: int| registry[i].name)
}

/// An attribute, marked as registered where its name is one of `names`.
pub open spec fn tag_attr(a: FieldAttributeView, names: Seq<Seq<char>>) -> FieldAttributeView {
    if names.contains(a.name) {
        FieldAttributeView { is_registered: Some(true), ..a }
    } else {
        a
    }
}

/// The attributes, each marked as registered where it is.
pub open spec fn tag_attrs(attrs: Seq<FieldAttributeView>, names: Seq<Seq<char>>) -> Seq<
    FieldAttributeView,
> {
    Seq::new(attrs.len(), |i: int| tag_attr(attrs[i], names))
}

/// A field with its attributes marked.
pub open spec fn tag_field(f: FieldNodeView, names: Seq<Seq<char>>) -> FieldNodeView {
    FieldNodeView { attributes: tag_attrs(f.attributes, names), ..f }
}

/// A model with its attributes and those of its fields marked. The fields
/// below a field are left as they are.
pub open spec fn tag_model(m: ModelNodeView, names: Seq<Seq<char>>) -> ModelNodeView {
    ModelNodeView {
        attributes: tag_attrs(m.attributes, names),
        fields: Seq::new(m.fields.len(), |i: int| tag_field(m.fields[i], names)),
        ..m
    }
}

/// The models of a list, each marked.
pub open spec fn tag_models(list: Seq<ModelNodeView>, names: Seq<Seq<char>>) -> Seq<ModelNodeView> {
    Seq::new(list.len(), |i: int| tag_model(list[i], names))
}

fn is_registered_name(names: &Vec<String>, name: &str) -> (r: bool)
    ensures
        r == names.deep_view().contains(name@),
{
    let mut i: usize = 0;
    while i < names.len()
        invariant
            i <= names@.len(),
            forall|j: int| 0 <= j < i ==> names.deep_view()[j] != name@,
        decreases names.len() - i,
    {
        proof {
            assert(names.deep_view()[i as int] == names@[i as int]@);
        }
        if str_eq(names[i].as_str(), name) {
            return true;
        }
        i += 1;
    }
    false
}

fn tag_attributes(attrs: &mut Vec<FieldAttribute>, names: &Vec<String>)
    ensures
        final(attrs).deep_view() == tag_attrs(old(attrs).deep_view(), names.deep_view()),
{
    let ghost before = attrs.deep_view();
    let mut j: usize = 0;
    while j < attrs.len()
        invariant
            j <= attrs@.len(),
            attrs@.len() == before.len(),
            forall|k: int| 0 <= k < j ==> attrs@[k].deep_view() == tag_attr(
                before[k],
                names.deep_view(),
            ),
            forall|k: int| j <= k < attrs@.len() ==> attrs@[k].deep_view() == before[k],
        decreases attrs.len() - j,
    {
        if is_registered_name(names, attrs[j].name.as_str()) {
            attrs[j].is_registered = Some(true);
        }
        j += 1;
    }
    proof {
        assert(attrs.deep_view() =~= tag_attrs(before, names.deep_view()));
    }
}

fn tag_model_node(m: &mut ModelNode, names: &Vec<String>)
    ensures
        final(m).deep_view() == tag_model(old(m).deep_view(), names.deep_view()),
{
    tag_attributes(&mut m.attributes, names);
    let ghost before = m.fields.deep_view();
    let mut k: usize = 0;
    while k < m.fields.len()
        invariant
            k <= m.fields@.len(),
            m.fields@.len() == before.len(),
            forall|j: int| 0 <= j < k ==> field_view(&m.fields@[j]) == tag_field(
                before[j],
                names.deep_view(),
            ),
            forall|j: int| k <= j < m.fields@.len() ==> field_view(&m.fields@[j]) == before[j],
            m.deep_view() == (ModelNodeView {
                fields: m.fields.deep_view(),
                ..tag_model(old(m).deep_view(), names.deep_view())
            }),
        decreases m.fields.len() - k,
    {
        let mut f = m.fields.remove(k);
        tag_attributes(&mut f.attributes, names);
        m.fields.insert(k, f);
        k += 1;
    }
    proof {
        assert(m.fields.deep_view() =~= Seq::new(
            before.len(),
            |i: int| tag_field(before[i], names.deep_view()),
        ));
    }
}

fn tag_all(list: &mut Vec<ModelNode>, names: &Vec<String>)
    ensures
        final(list).deep_view() == tag_models(old(list).deep_view(), names.deep_view()),
{
    let ghost before = list.deep_view();
    let mut i: usize = 0;
    while i < list.len()
        invariant
            i <= list@.len(),
            list@.len() == before.len(),
            forall|j: int| 0 <= j < i ==> list@[j].deep_view() == tag_model(
                before[j],
                names.deep_view(),
            ),
            forall|j: int| i <= j < list@.len() ==> list@[j].deep_view() == before[j],
        decreases list.len() - i,
    {
        let mut m = list.remove(i);
        tag_model_node(&mut m, names);
        list.insert(i, m);
        i += 1;
    }
    proof {
        assert(list.deep_view() =~= tag_models(before, names.deep_view()));
    }
}

/// The namespace of the first file from `from` on that declares one.
pub open spec fn first_namespace(files: Seq<ParsedFileView>, from: int) -> Option<Seq<char>>
    decreases files.len() - from,
{
    if from < 0 || from >= files.len() {
        None
    } else if files[from].namespace is Some {
        files[from].namespace
    } else {
        first_namespace(files, from + 1)
    }
}

/// The project of the tree: the one that is given; its name is the first
/// namespace of the files where none is given.
pub open spec fn project_of(files: Seq<ParsedFileView>, given: Option<ProjectInfoView>) -> ProjectInfoView {
    let p = match given {
        Some(p) => p,
        None => ProjectInfoView { name: None, version: None },
    };
    if p.name is None {
        ProjectInfoView { name: first_namespace(files, 0), ..p }
    } else {
        p
    }
}

fn find_namespace(files: &[ParsedFile]) -> (r: Option<String>)
    ensures
        r.deep_view() == first_namespace(files.deep_view(), 0),
{
    let mut i: usize = 0;
    while i < files.len()
        invariant
            i <= files@.len(),
            first_namespace(files.deep_view(), i as int) == first_namespace(files.deep_view(), 0),
        decreases files.len() - i,
    {
        proof {
            assert(files.deep_view()[i as int] == files@[i as int].deep_view());
        }
        if files[i].namespace.is_some() {
            return clone_opt_string(&files[i].namespace);
        }
        i += 1;
    }
    None
}

/// Each file with the paths it imports.
pub open spec fn import_graph(files: Seq<ParsedFileView>) -> Seq<(Seq<char>, Seq<Seq<char>>)> {
    Seq::new(files.len(), |i: int| (files[i].source, files[i].imports))
}

fn build_import_graph(files: &[ParsedFile]) -> (r: Vec<(String, Vec<String>)>)
    ensures
        r.deep_view() == import_graph(files.deep_view()),
{
    let mut out: Vec<(String, Vec<String>)> = Vec::new();
    let mut i: usize = 0;
    while i < files.len()
        invariant
            i <= files@.len(),
            out@.len() == i,
            forall|j: int| 0 <= j < i ==> out@[j].deep_view() == import_graph(files.deep_view())[j],
        decreases files.len() - i,
    {
        proof {
            assert(files.deep_view()[i as int] == files@[i as int].deep_view());
        }
        out.push((files[i].source.clone(), crate::types::clone_vec_string(&files[i].imports)));
        i += 1;
    }
    proof {
        assert(out.deep_view() =~= import_graph(files.deep_view()));
    }
    out
}

fn registry_names(registry: &Vec<AttributeRegistryEntry>) -> (r: Vec<String>)
    ensures
        r.deep_view() == registered_names(registry.deep_view()),
{
    let mut out: Vec<String> = Vec::new();
    let mut i: usize = 0;
    while i < registry.len()
        invariant
            i <= registry@.len(),
            out@.len() == i,
            forall|j: int| 0 <= j < i ==> out@[j]@ == registry@[j].name@,
        decreases registry.len() - i,
    {
        out.push(registry[i].name.clone());
        i += 1;
    }
    proof {
        assert(out.deep_view() =~= registered_names(registry.deep_view()));
    }
    out
}

/// The errors that the resolver finds before it looks at fields: duplicate
/// names, then names that are ambiguous across namespaces.
pub open spec fn name_errors(defs: Seq<DefinitionView>) -> Seq<DiagnosticView> {
    ambiguity_errors_from(defs, 0, duplicate_errors_from(defs, 0, Seq::empty()))
}

/// The models with their inherited fields, and the errors up to there.
pub open spec fn inherited_models(files: Seq<ParsedFileView>) -> (
    Seq<ModelNodeView>,
    Seq<DiagnosticView>,
) {
    resolve_models_from(
        all_models(files),
        all_interfaces(files),
        definitions(files),
        0,
        name_errors(definitions(files)),
    )
}

/// The views with their inherited fields, and the errors up to there. A
/// view inherits from models, which it sees with their inherited fields,
/// and from interfaces.
pub open spec fn inherited_views(files: Seq<ParsedFileView>) -> (
    Seq<ModelNodeView>,
    Seq<DiagnosticView>,
) {
    resolve_views_from(
        all_views(files),
        inherited_models(files).0,
        all_interfaces(files),
        definitions(files),
        0,
        inherited_models(files).1,
    )
}

/// The errors of the resolver, in the order in which it finds them:
/// duplicate names, ambiguous names, unresolved parents of the models and
/// of the views, duplicate fields of the models and of the views, circular
/// imports.
pub open spec fn resolver_errors(files: Seq<ParsedFileView>) -> Seq<DiagnosticView> {
    duplicate_fields_in(
        inherited_views(files).0,
        0,
        duplicate_fields_in(inherited_models(files).0, 0, inherited_views(files).1),
    ) + circular_imports(import_graph(files))
}

/// The resolved tree of the files: the elements of each kind in the order
/// of the files, the models and the views with their inherited fields, the
/// attributes marked that the registry knows, and the errors of the
/// resolver.
pub open spec fn resolved(files: Seq<ParsedFileView>, project: Option<ProjectInfoView>) -> M3lAstView {
    let names = registered_names(all_registry(files));
    M3lAstView {
        parser_version: PARSER_VERSION@,
        ast_version: AST_VERSION@,
        project: project_of(files, project),
        sources: sources_of(files),
        models: tag_models(inherited_models(files).0, names),
        enums: all_enums(files),
        interfaces: tag_models(all_interfaces(files), names),
        views: tag_models(inherited_views(files).0, names),
        attribute_registry: all_registry(files),
        errors: resolver_errors(files),
        warnings: Seq::empty(),
    }
}

fn resolve_all_inheritance(
    models: &mut Vec<ModelNode>,
    interfaces: &Vec<ModelNode>,
    defs: &Vec<Definition>,
    errors: &mut Vec<Diagnostic>,
)
    ensures
        (final(models).deep_view(), final(errors).deep_view()) == resolve_models_from(
            old(models).deep_view(),
            interfaces.deep_view(),
            defs.deep_view(),
            0,
            old(errors).deep_view(),
        ),
{
    let n = models.len();
    let mut i: usize = 0;
    while i < n
        invariant
            i <= n == models@.len(),
            resolve_models_from(
                models.deep_view(),
                interfaces.deep_view(),
                defs.deep_view(),
                i as int,
                errors.deep_view(),
            ) == resolve_models_from(
                old(models).deep_view(),
                interfaces.deep_view(),
                defs.deep_view(),
                0,
                old(errors).deep_view(),
            ),
        decreases n - i,
    {
        resolve_inheritance(i, models, interfaces, defs, errors);
        i += 1;
    }
}

fn resolve_all_views(
    views: &mut Vec<ModelNode>,
    models: &Vec<ModelNode>,
    interfaces: &Vec<ModelNode>,
    defs: &Vec<Definition>,
    errors: &mut Vec<Diagnostic>,
)
    ensures
        (final(views).deep_view(), final(errors).deep_view()) == resolve_views_from(
            old(views).deep_view(),
            models.deep_view(),
            interfaces.deep_view(),
            defs.deep_view(),
            0,
            old(errors).deep_view(),
        ),
{
    let n = views.len();
    let mut i: usize = 0;
    while i < n
        invariant
            i <= n == views@.len(),
            resolve_views_from(
                views.deep_view(),
                models.deep_view(),
                interfaces.deep_view(),
                defs.deep_view(),
                i as int,
                errors.deep_view(),
            ) == resolve_views_from(
                old(views).deep_view(),
                models.deep_view(),
                interfaces.deep_view(),
                defs.deep_view(),
                0,
                old(errors).deep_view(),
            ),
        decreases n - i,
    {
        resolve_view_inheritance(i, views, models, interfaces, defs, errors);
        i += 1;
    }
}

/// Merges the elements of several files into one tree and resolves it.
pub fn resolve(files: &[ParsedFile], project: Option<ProjectInfo>) -> (ast: M3lAst)
    ensures
        ast.deep_view() == resolved(files.deep_view(), project.deep_view()),
{
    let mut all = collect(files);
    let mut errors: Vec<Diagnostic> = Vec::new();
    let mut defs: Vec<Definition> = Vec::new();
    proof {
        assert(errors.deep_view() =~= Seq::empty());
        assert(defs.deep_view() =~= Seq::empty());
    }
    add_model_definitions(&mut defs, &all.models, ModelType::Model, files);
    add_enum_definitions(&mut defs, &all.enums, files);
    add_model_definitions(&mut defs, &all.interfaces, ModelType::Interface, files);
    add_model_definitions(&mut defs, &all.views, ModelType::View, files);
    proof {
        assert(defs.deep_view() =~= definitions(files.deep_view()));
    }
    check_duplicates(&defs, &mut errors);
    check_ambiguities(&defs, &mut errors);
    resolve_all_inheritance(&mut all.models, &all.interfaces, &defs, &mut errors);
    resolve_all_views(&mut all.views, &all.models, &all.interfaces, &defs, &mut errors);
    check_all_duplicate_fields(&all.models, &mut errors);
    check_all_duplicate_fields(&all.views, &mut errors);
    let names = registry_names(&all.registry);
    tag_all(&mut all.models, &names);
    tag_all(&mut all.views, &names);
    tag_all(&mut all.interfaces, &names);
    let graph = build_import_graph(files);
    let mut circular = detect_circular_imports(graph.as_slice());
    let ghost first = errors.deep_view();
    let ghost second = circular.deep_view();
    errors.append(&mut circular);
    proof {
        assert(errors.deep_view() =~= first + second);
    }
    let mut info = match project {
        Some(p) => p,
        None => ProjectInfo { name: None, version: None },
    };
    if info.name.is_none() {
        info.name = find_namespace(files);
    }
    let warnings: Vec<Diagnostic> = Vec::new();
    proof {
        assert(warnings.deep_view() =~= Seq::empty());
    }
    M3lAst {
        parser_version: String::from_str(PARSER_VERSION),
        ast_version: String::from_str(AST_VERSION),
        project: info,
        sources: all.sources,
        models: all.models,
        enums: all.enums,
        interfaces: all.interfaces,
        views: all.views,
        attribute_registry: all.registry,
        errors,
        warnings,
    }
}

} // verus!
