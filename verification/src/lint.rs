//! Lint rules for a resolved tree: naming conventions, the size of models,
//! field names that are easily confused, and the number of references of a
//! model. Each rule can be switched off or given another severity.

use vstd::prelude::*;
use crate::report::say;
use crate::report::say_number;
use crate::rules::{has_reference, is_reference};
use crate::text::{
    decimal, ends_with, from_chars, lowercase, matches_at, str_eq, to_chars, to_lowercase,
};
use crate::types::{
    field_view, lemma_field_view_fields, EnumNodeView, FieldNode, FieldNodeView, M3lAst,
    M3lAstView, ModelNode, ModelNodeView,
};

verus! {

/// How grave a lint finding is.
#[derive(Debug, Clone, Copy, PartialEq, Eq, Structural)]
pub enum LintSeverity {
    Error,
    Warning,
    Info,
}

/// A finding of a lint rule.
#[derive(Debug, PartialEq)]
pub struct LintDiagnostic {
    pub rule: String,
    pub severity: LintSeverity,
    pub file: String,
    pub line: usize,
    pub col: usize,
    pub message: String,
}

/// The mathematical value of a [`LintDiagnostic`].
pub struct LintDiagnosticView {
    pub rule: Seq<char>,
    pub severity: LintSeverity,
    pub file: Seq<char>,
    pub line: usize,
    pub col: usize,
    pub message: Seq<char>,
}

impl DeepView for LintDiagnostic {
    type V = LintDiagnosticView;

    open spec fn deep_view(&self) -> LintDiagnosticView {
        LintDiagnosticView {
            rule: self.rule@,
            severity: self.severity,
            file: self.file@,
            line: self.line,
            col: self.col,
            message: self.message@,
        }
    }
}

impl Clone for LintDiagnostic {
    fn clone(&self) -> (r: Self)
        ensures
            r.deep_view() == self.deep_view(),
    {
        LintDiagnostic {
            rule: self.rule.clone(),
            severity: self.severity,
            file: self.file.clone(),
            line: self.line,
            col: self.col,
            message: self.message.clone(),
        }
    }
}

/// What the configuration says of a rule.
#[derive(Debug, Clone, Copy, PartialEq, Eq, Structural)]
pub enum RuleLevel {
    Off,
    Warn,
    Error,
}

impl Default for RuleLevel {
    fn default() -> (r: Self)
        ensures
            r == RuleLevel::Warn,
    {
        RuleLevel::Warn
    }
}

/// The configuration of the linter: a level for each rule that it names,
/// each rule once.
#[derive(Debug)]
pub struct LintConfig {
    pub rules: Vec<(String, RuleLevel)>,
}

/// The position of the entry for `id` from `from` on, or the number of entries.
pub open spec fn level_index(rules: Seq<(String, RuleLevel)>, id: Seq<char>, from: int) -> int
    decreases rules.len() - from,
{
    if from < 0 || from >= rules.len() {
        rules.len() as int
    } else if rules[from].0@ == id {
        from
    } else {
        level_index(rules, id, from + 1)
    }
}

/// The level that the configuration gives the rule `id`, if it names it.
pub open spec fn level_of(rules: Seq<(String, RuleLevel)>, id: Seq<char>) -> Option<RuleLevel> {
    let i = level_index(rules, id, 0);
    if 0 <= i < rules.len() {
        Some(rules[i].1)
    } else {
        None
    }
}

impl Default for LintConfig {
    fn default() -> (r: Self)
        ensures
            r.rules@.len() == 0,
    {
        LintConfig { rules: Vec::new() }
    }
}

impl LintConfig {
    fn find(&self, rule_id: &str) -> (r: usize)
        ensures
            r == level_index(self.rules@, rule_id@, 0),
            r <= self.rules@.len(),
    {
        let mut i: usize = 0;
        while i < self.rules.len()
            invariant
                i <= self.rules@.len(),
                level_index(self.rules@, rule_id@, i as int) == level_index(
                    self.rules@,
                    rule_id@,
                    0,
                ),
            decreases self.rules.len() - i,
        {
            if str_eq(self.rules[i].0.as_str(), rule_id) {
                return i;
            }
            i += 1;
        }
        i
    }

    /// The level of the rule `rule_id`, if the configuration names the rule.
    pub fn level(&self, rule_id: &str) -> (r: Option<RuleLevel>)
        ensures
            r == level_of(self.rules@, rule_id@),
    {
        let i = self.find(rule_id);
        if i < self.rules.len() {
            Some(self.rules[i].1)
        } else {
            None
        }
    }

    /// Sets the level of the rule `rule_id`.
    pub fn set(&mut self, rule_id: &str, level: RuleLevel)
        ensures
            level_of(final(self).rules@, rule_id@) == Some(level),
            forall|other: Seq<char>|
                other != rule_id@ ==> level_of(final(self).rules@, other) == level_of(
                    old(self).rules@,
                    other,
                ),
    {
        let i = self.find(rule_id);
        let ghost before = self.rules@;
        if i < self.rules.len() {
            let entry = (self.rules[i].0.clone(), level);
            self.rules.set(i, entry);
        } else {
            self.rules.push((String::from_str(rule_id), level));
        }
        proof {
            lemma_level_index(before, rule_id@, 0);
            lemma_level_after_set(before, self.rules@, rule_id@, level);
        }
    }

    /// Whether the rule `rule_id` is enabled: it is unless it is switched off.
    pub fn is_enabled(&self, rule_id: &str) -> (r: bool)
        ensures
            r == (level_of(self.rules@, rule_id@) != Some(RuleLevel::Off)),
    {
        match self.level(rule_id) {
            Some(RuleLevel::Off) => false,
            _ => true,
        }
    }

    /// The severity of the findings of the rule `rule_id`, whose own
    /// severity is `default`: that of the configured level, where the rule
    /// is configured.
    pub fn severity_for(&self, rule_id: &str, default: LintSeverity) -> (r: LintSeverity)
        ensures
            r == severity_of(level_of(self.rules@, rule_id@), default),
    {
        match self.level(rule_id) {
            Some(RuleLevel::Error) => LintSeverity::Error,
            Some(RuleLevel::Warn) => LintSeverity::Warning,
            Some(RuleLevel::Off) => LintSeverity::Warning,
            None => default,
        }
    }
}

/// The severity that a level stands for; `default` where there is no level.
pub open spec fn severity_of(level: Option<RuleLevel>, default: LintSeverity) -> LintSeverity {
    match level {
        Some(RuleLevel::Error) => LintSeverity::Error,
        Some(RuleLevel::Warn) => LintSeverity::Warning,
        Some(RuleLevel::Off) => LintSeverity::Warning,
        None => default,
    }
}

proof fn lemma_level_index(rules: Seq<(String, RuleLevel)>, id: Seq<char>, from: int)
    requires
        0 <= from <= rules.len(),
    ensures
        from <= level_index(rules, id, from) <= rules.len(),
        level_index(rules, id, from) < rules.len() ==> rules[level_index(rules, id, from)].0@
            == id,
        forall|j: int| from <= j < level_index(rules, id, from) ==> rules[j].0@ != id,
    decreases rules.len() - from,
{
    if from < rules.len() && rules[from].0@ != id {
        lemma_level_index(rules, id, from + 1);
    }
}

proof fn lemma_level_index_is(rules: Seq<(String, RuleLevel)>, id: Seq<char>, from: int, at: int)
    requires
        0 <= from <= at <= rules.len(),
        forall|j: int| from <= j < at ==> rules[j].0@ != id,
        at < rules.len() ==> rules[at].0@ == id,
    ensures
        level_index(rules, id, from) == at,
    decreases at - from,
{
    if from < at {
        lemma_level_index_is(rules, id, from + 1, at);
    }
}

proof fn lemma_level_after_set(
    before: Seq<(String, RuleLevel)>,
    after: Seq<(String, RuleLevel)>,
    id: Seq<char>,
    level: RuleLevel,
)
    requires
        ({
            let i = level_index(before, id, 0);
            if i < before.len() {
                after.len() == before.len() && after[i].0@ == id && after[i].1 == level
                    && forall|j: int| 0 <= j < before.len() && j != i ==> after[j] == before[j]
            } else {
                after.len() == before.len() + 1 && after.last().0@ == id && after.last().1
                    == level && forall|j: int| 0 <= j < before.len() ==> after[j] == before[j]
            }
        }),
    ensures
        level_of(after, id) == Some(level),
        forall|other: Seq<char>| other != id ==> level_of(after, other) == level_of(before, other),
{
    let i = level_index(before, id, 0);
    lemma_level_index(before, id, 0);
    lemma_level_index_is(after, id, 0, i);
    assert forall|other: Seq<char>| other != id implies level_of(after, other) == level_of(
        before,
        other,
    ) by {
        let k = level_index(before, other, 0);
        lemma_level_index(before, other, 0);
        if k < before.len() {
            lemma_level_index_is(after, other, 0, k);
        } else {
            lemma_level_index_is(after, other, 0, after.len() as int);
        }
    }
}

/// Whether a name is in Pascal case: it starts with an ASCII capital and
/// holds no underscore.
pub open spec fn pascal_case(name: Seq<char>) -> bool {
    name.len() > 0 && 'A' <= name[0] && name[0] <= 'Z' && !name.contains('_')
}

/// Whether a name is in Pascal case.
pub fn is_pascal_case(name: &str) -> (r: bool)
    ensures
        r == pascal_case(name@),
{
    let v = to_chars(name);
    if v.len() == 0 {
        return false;
    }
    if !(v[0] >= 'A' && v[0] <= 'Z') {
        return false;
    }
    !crate::text::contains_char(&v, '_')
}

/// A character of a name in snake case: a small ASCII letter, a digit or an underscore.
pub open spec fn snake_char(c: char) -> bool {
    ('a' <= c && c <= 'z') || ('0' <= c && c <= '9') || c == '_'
}

/// Whether a name is in snake case: not empty, and small ASCII letters,
/// digits and underscores only.
pub open spec fn snake_case(name: Seq<char>) -> bool {
    name.len() > 0 && forall|i: int| 0 <= i < name.len() ==> snake_char(#[trigger] name[i])
}

/// Whether a name is in snake case.
pub fn is_snake_case(name: &str) -> (r: bool)
    ensures
        r == snake_case(name@),
{
    let v = to_chars(name);
    if v.len() == 0 {
        return false;
    }
    let mut i: usize = 0;
    while i < v.len()
        invariant
            i <= v@.len(),
            v@ == name@,
            forall|j: int| 0 <= j < i ==> snake_char(#[trigger] v@[j]),
        decreases v.len() - i,
    {
        let c = v[i];
        if !((c >= 'a' && c <= 'z') || (c >= '0' && c <= '9') || c == '_') {
            proof {
                assert(!snake_char(name@[i as int]));
            }
            return false;
        }
        i += 1;
    }
    true
}

/// The endings that `normalize` takes off a name.
pub open spec fn suffixes() -> Seq<Seq<char>> {
    seq!["_id"@, "_at"@, "_on"@, "_by"@, "_name"@, "_date"@, "_time"@]
}

/// `lower` without the first of the endings from the `k`-th on that it
/// ends with and is longer than.
pub open spec fn without_suffix(lower: Seq<char>, k: int) -> Seq<char>
    decreases suffixes().len() - k,
{
    if k < 0 || k >= suffixes().len() {
        lower
    } else if ends_with(lower, suffixes()[k]) && lower.len() > suffixes()[k].len() {
        lower.subrange(0, lower.len() - suffixes()[k].len())
    } else {
        without_suffix(lower, k + 1)
    }
}

/// A name in lower case without a common ending such as `_id` or `_at`.
pub open spec fn normalized(name: Seq<char>) -> Seq<char> {
    without_suffix(lowercase(name), 0)
}

/// Brings a field name into the form in which names are compared.
pub fn normalize(name: &str) -> (r: String)
    ensures
        r@ == normalized(name@),
{
    let lower = to_chars(to_lowercase(name).as_str());
    let list = vec!["_id", "_at", "_on", "_by", "_name", "_date", "_time"];
    proof {
        assert(crate::catalogs::names(list@) =~= suffixes());
    }
    let mut k: usize = 0;
    while k < list.len()
        invariant
            k <= list@.len(),
            crate::catalogs::names(list@) == suffixes(),
            lower@ == lowercase(name@),
            without_suffix(lower@, k as int) == without_suffix(lower@, 0),
        decreases list.len() - k,
    {
        let suffix = to_chars(list[k]);
        proof {
            assert(crate::catalogs::names(list@)[k as int] == list@[k as int]@);
        }
        if suffix.len() < lower.len() && matches_at(&lower, &suffix, lower.len() - suffix.len()) {
            proof {
                assert(suffixes()[k as int] == suffix@);
                assert(ends_with(lower@, suffix@));
            }
            return crate::text::substring(&lower, 0, lower.len() - suffix.len());
        }
        proof {
            assert(suffixes()[k as int] == suffix@);
            assert(!(ends_with(lower@, suffix@) && lower@.len() > suffix@.len()));
        }
        k += 1;
    }
    from_chars(&lower)
}

/// `s` without its underscores.
pub open spec fn without_underscores(s: Seq<char>) -> Seq<char>
    decreases s.len(),
{
    if s.len() == 0 {
        s
    } else if s.last() == '_' {
        without_underscores(s.drop_last())
    } else {
        without_underscores(s.drop_last()).push(s.last())
    }
}

fn squeeze(s: &str) -> (r: String)
    ensures
        r@ == lowercase(without_underscores(s@)),
{
    let v = to_chars(s);
    let mut out: Vec<char> = Vec::new();
    let mut i: usize = 0;
    proof {
        assert(v@.take(0) =~= Seq::empty());
    }
    while i < v.len()
        invariant
            i <= v@.len(),
            out@ == without_underscores(v@.take(i as int)),
        decreases v.len() - i,
    {
        proof {
            assert(v@.take(i + 1).drop_last() =~= v@.take(i as int));
        }
        if v[i] != '_' {
            out.push(v[i]);
        }
        i += 1;
    }
    proof {
        assert(v@.take(v@.len() as int) =~= v@);
    }
    to_lowercase(from_chars(&out).as_str())
}

/// Whether two names are easily confused: they differ, and they are the
/// same once normalized, or once underscores and case are left out.
pub open spec fn similar(a: Seq<char>, b: Seq<char>) -> bool {
    a != b && (normalized(a) == normalized(b) || lowercase(without_underscores(a)) == lowercase(
        without_underscores(b),
    ))
}

/// Whether two field names are easily confused.
pub fn are_similar(a: &str, b: &str) -> (r: bool)
    ensures
        r == similar(a@, b@),
{
    if str_eq(a, b) {
        return false;
    }
    if str_eq(normalize(a).as_str(), normalize(b).as_str()) {
        return true;
    }
    str_eq(squeeze(a).as_str(), squeeze(b).as_str())
}

/// A finding of the rule `rule` at line `line` of `file`, column 1.
pub open spec fn finding(
    rule: Seq<char>,
    severity: LintSeverity,
    file: Seq<char>,
    line: usize,
    message: Seq<char>,
) -> LintDiagnosticView {
    LintDiagnosticView {
        rule: rule,
        severity: severity,
        file: file,
        line: line,
        col: 1,
        message: message,
    }
}

fn find_at(rule: &str, severity: LintSeverity, file: &str, line: usize, message: &Vec<char>) -> (r:
    LintDiagnostic)
    ensures
        r.deep_view() == finding(rule@, severity, file@, line, message@),
{
    LintDiagnostic {
        rule: String::from_str(rule),
        severity,
        file: String::from_str(file),
        line,
        col: 1,
        message: from_chars(message),
    }
}

fn note(list: &mut Vec<LintDiagnostic>, d: LintDiagnostic)
    ensures
        final(list).deep_view() == old(list).deep_view().push(d.deep_view()),
{
    let ghost before = list.deep_view();
    list.push(d);
    proof {
        assert(list.deep_view() =~= before.push(d.deep_view()));
    }
}

/// The rule that holds the names of elements to Pascal case and the names
/// of fields to snake case.
pub struct NamingConventionRule;

/// The finding for a name that is not in the case that is asked of it:
/// `what` says what is named, `case` which case is asked.
pub open spec fn naming_finding(
    what: Seq<char>,
    name: Seq<char>,
    case: Seq<char>,
    file: Seq<char>,
    line: usize,
) -> LintDiagnosticView {
    finding(
        "naming-convention"@,
        LintSeverity::Warning,
        file,
        line,
        what + " name \""@ + name + "\" should be "@ + case,
    )
}

/// The findings for the names of the fields from the `k`-th on and of the
/// fields below them; `source` is the file of the model.
pub open spec fn field_name_findings(fields: Seq<FieldNodeView>, k: int, source: Seq<char>) -> Seq<
    LintDiagnosticView,
>
    decreases fields, fields.len() - k,
{
    if k < 0 || k >= fields.len() {
        Seq::empty()
    } else {
        (if snake_case(fields[k].name) {
            Seq::empty()
        } else {
            seq![
                naming_finding(
                    "Field"@,
                    fields[k].name,
                    "snake_case"@,
                    source,
                    fields[k].loc.line,
                ),
            ]
        }) + (match fields[k].fields {
            Some(sub) => field_name_findings(sub, 0, source),
            None => Seq::empty(),
        }) + field_name_findings(fields, k + 1, source)
    }
}

/// The findings for the models from the `i`-th on: for each its name, then
/// the names of its fields. `what` says what the list holds.
pub open spec fn model_name_findings(list: Seq<ModelNodeView>, i: int, what: Seq<char>) -> Seq<
    LintDiagnosticView,
>
    decreases list.len() - i,
{
    if i < 0 || i >= list.len() {
        Seq::empty()
    } else {
        (if pascal_case(list[i].name) {
            Seq::empty()
        } else {
            seq![
                naming_finding(what, list[i].name, "PascalCase"@, list[i].source, list[i].line),
            ]
        }) + field_name_findings(list[i].fields, 0, list[i].source) + model_name_findings(
            list,
            i + 1,
            what,
        )
    }
}

/// The findings for the names of the enums from the `i`-th on.
pub open spec fn enum_name_findings(list: Seq<EnumNodeView>, i: int) -> Seq<LintDiagnosticView>
    decreases list.len() - i,
{
    if i < 0 || i >= list.len() {
        Seq::empty()
    } else {
        (if pascal_case(list[i].name) {
            Seq::empty()
        } else {
            seq![
                naming_finding(
                    "Enum"@,
                    list[i].name,
                    "PascalCase"@,
                    list[i].source,
                    list[i].line,
                ),
            ]
        }) + enum_name_findings(list, i + 1)
    }
}

/// What the naming rule finds: models and views, then interfaces, then enums.
pub open spec fn naming_findings(ast: M3lAstView) -> Seq<LintDiagnosticView> {
    model_name_findings(ast.models, 0, "Model"@) + model_name_findings(ast.views, 0, "Model"@)
        + model_name_findings(ast.interfaces, 0, "Interface"@) + enum_name_findings(
        ast.enums,
        0,
    )
}

fn make_naming_finding(what: &str, name: &str, case: &str, file: &str, line: usize) -> (r:
    LintDiagnostic)
    ensures
        r.deep_view() == naming_finding(what@, name@, case@, file@, line),
{
    let mut t: Vec<char> = Vec::new();
    say(&mut t, what);
    say(&mut t, " name \"");
    say(&mut t, name);
    say(&mut t, "\" should be ");
    say(&mut t, case);
    proof {
        assert(t@ =~= what@ + " name \""@ + name@ + "\" should be "@ + case@);
    }
    find_at("naming-convention", LintSeverity::Warning, file, line, &t)
}

/// Checks the names of fields, and of the fields below them.
pub fn check_field_names(fields: &Vec<FieldNode>, source: &str, out: &mut Vec<LintDiagnostic>)
    ensures
        final(out).deep_view() == old(out).deep_view() + field_name_findings(
            fields.deep_view(),
            0,
            source@,
        ),
    decreases fields,
{
    let ghost fv = fields.deep_view();
    let mut k: usize = 0;
    while k < fields.len()
        invariant
            k <= fields@.len(),
            fv == fields.deep_view(),
            out.deep_view() + field_name_findings(fv, k as int, source@) == old(out).deep_view()
                + field_name_findings(fv, 0, source@),
        decreases fields.len() - k,
    {
        let f = &fields[k];
        let ghost start = out.deep_view();
        proof {
            assert(fv[k as int] == field_view(f));
            assert(start + Seq::<LintDiagnosticView>::empty() =~= start);
        }
        if !is_snake_case(f.name.as_str()) {
            note(out, make_naming_finding("Field", f.name.as_str(), "snake_case", source, f.loc.line));
        }
        let ghost mid = out.deep_view();
        match &f.fields {
            Some(sub) => {
                proof {
                    lemma_field_view_fields(f);
                }
                check_field_names(sub, source, out);
            },
            None => {
                proof {
                    assert(mid + Seq::<LintDiagnosticView>::empty() =~= mid);
                }
            },
        }
        proof {
            let own = if snake_case(fv[k as int].name) {
                Seq::empty()
            } else {
                seq![
                    naming_finding(
                        "Field"@,
                        fv[k as int].name,
                        "snake_case"@,
                        source@,
                        fv[k as int].loc.line,
                    ),
                ]
            };
            let below = match fv[k as int].fields {
                Some(sub) => field_name_findings(sub, 0, source@),
                None => Seq::empty(),
            };
            let rest = field_name_findings(fv, k + 1, source@);
            assert(mid =~= start + own);
            assert(out.deep_view() =~= start + own + below);
            assert(out.deep_view() + rest =~= start + (own + below + rest));
        }
        k += 1;
    }
    proof {
        assert(out.deep_view() + Seq::<LintDiagnosticView>::empty() =~= out.deep_view());
    }
}

fn check_model_names(list: &Vec<ModelNode>, what: &str, out: &mut Vec<LintDiagnostic>)
    ensures
        final(out).deep_view() == old(out).deep_view() + model_name_findings(
            list.deep_view(),
            0,
            what@,
        ),
{
    let ghost lv = list.deep_view();
    let mut i: usize = 0;
    while i < list.len()
        invariant
            i <= list@.len(),
            lv == list.deep_view(),
            out.deep_view() + model_name_findings(lv, i as int, what@) == old(out).deep_view()
                + model_name_findings(lv, 0, what@),
        decreases list.len() - i,
    {
        let m = &list[i];
        let ghost start = out.deep_view();
        proof {
            assert(lv[i as int] == m.deep_view());
            assert(start + Seq::<LintDiagnosticView>::empty() =~= start);
        }
        if !is_pascal_case(m.name.as_str()) {
            note(out, make_naming_finding(what, m.name.as_str(), "PascalCase", m.source.as_str(), m.line));
        }
        let ghost mid = out.deep_view();
        check_field_names(&m.fields, m.source.as_str(), out);
        proof {
            let own = if pascal_case(lv[i as int].name) {
                Seq::empty()
            } else {
                seq![
                    naming_finding(
                        what@,
                        lv[i as int].name,
                        "PascalCase"@,
                        lv[i as int].source,
                        lv[i as int].line,
                    ),
                ]
            };
            let below = field_name_findings(lv[i as int].fields, 0, lv[i as int].source);
            let rest = model_name_findings(lv, i + 1, what@);
            assert(mid =~= start + own);
            assert(out.deep_view() + rest =~= start + (own + below + rest));
        }
        i += 1;
    }
    proof {
        assert(out.deep_view() + Seq::<LintDiagnosticView>::empty() =~= out.deep_view());
    }
}

impl NamingConventionRule {
    /// The name of the rule.
    pub fn id(&self) -> (r: &'static str)
        ensures
            r@ == "naming-convention"@,
    {
        "naming-convention"
    }

    /// What the rule asks for.
    pub fn description(&self) -> &'static str {
        "Model names should be PascalCase, field names should be snake_case"
    }

    /// The severity of the findings where the configuration sets none.
    pub fn default_severity(&self) -> (r: LintSeverity)
        ensures
            r == LintSeverity::Warning,
    {
        LintSeverity::Warning
    }

    /// Checks the names of a tree.
    pub fn check(&self, ast: &M3lAst) -> (r: Vec<LintDiagnostic>)
        ensures
            r.deep_view() == naming_findings(ast.deep_view()),
    {
        let mut out: Vec<LintDiagnostic> = Vec::new();
        proof {
            assert(out.deep_view() =~= Seq::empty());
        }
        check_model_names(&ast.models, "Model", &mut out);
        check_model_names(&ast.views, "Model", &mut out);
        check_model_names(&ast.interfaces, "Interface", &mut out);
        let ghost before = out.deep_view();
        let ghost ev = ast.enums.deep_view();
        let mut i: usize = 0;
        while i < ast.enums.len()
            invariant
                i <= ast.enums@.len(),
                ev == ast.enums.deep_view(),
                out.deep_view() + enum_name_findings(ev, i as int) == before + enum_name_findings(
                    ev,
                    0,
                ),
            decreases ast.enums.len() - i,
        {
            let e = &ast.enums[i];
            let ghost start = out.deep_view();
            proof {
                assert(ev[i as int] == e.deep_view());
            }
            if !is_pascal_case(e.name.as_str()) {
                note(
                    &mut out,
                    make_naming_finding("Enum", e.name.as_str(), "PascalCase", e.source.as_str(), e.line),
                );
                proof {
                    assert(out.deep_view() + enum_name_findings(ev, i + 1) =~= start + (seq![
                        naming_finding(
                            "Enum"@,
                            ev[i as int].name,
                            "PascalCase"@,
                            ev[i as int].source,
                            ev[i as int].line,
                        ),
                    ] + enum_name_findings(ev, i + 1)));
                }
            }
            i += 1;
        }
        proof {
            assert(out.deep_view() + Seq::<LintDiagnosticView>::empty() =~= out.deep_view());
            assert(out.deep_view() =~= naming_findings(ast.deep_view()));
        }
        out
    }
}

/// The rule that asks models not to have too many fields.
pub struct ModelSizeRule {
    pub max_fields: usize,
}

/// The finding for a model with more than `max` fields.
pub open spec fn size_finding(m: ModelNodeView, max: usize) -> LintDiagnosticView {
    finding(
        "model-size"@,
        LintSeverity::Warning,
        m.source,
        m.line,
        "Model \""@ + m.name + "\" has "@ + decimal(m.fields.len()) + " fields (max "@ + decimal(
            max as nat,
        ) + "). Consider splitting into smaller models"@,
    )
}

/// The findings for the models from the `i`-th on that have more than `max` fields.
pub open spec fn size_findings(list: Seq<ModelNodeView>, i: int, max: usize) -> Seq<
    LintDiagnosticView,
>
    decreases list.len() - i,
{
    if i < 0 || i >= list.len() {
        Seq::empty()
    } else if list[i].fields.len() > max {
        seq![size_finding(list[i], max)] + size_findings(list, i + 1, max)
    } else {
        size_findings(list, i + 1, max)
    }
}

impl Default for ModelSizeRule {
    fn default() -> (r: Self)
        ensures
            r.max_fields == 20,
    {
        ModelSizeRule { max_fields: 20 }
    }
}

impl ModelSizeRule {
    /// The name of the rule.
    pub fn id(&self) -> (r: &'static str)
        ensures
            r@ == "model-size"@,
    {
        "model-size"
    }

    /// What the rule asks for.
    pub fn description(&self) -> &'static str {
        "Models should not have too many fields"
    }

    /// The severity of the findings where the configuration sets none.
    pub fn default_severity(&self) -> (r: LintSeverity)
        ensures
            r == LintSeverity::Warning,
    {
        LintSeverity::Warning
    }

    fn check_list(&self, list: &Vec<ModelNode>, out: &mut Vec<LintDiagnostic>)
        ensures
            final(out).deep_view() == old(out).deep_view() + size_findings(
                list.deep_view(),
                0,
                self.max_fields,
            ),
    {
        let ghost lv = list.deep_view();
        let max = self.max_fields;
        let mut i: usize = 0;
        while i < list.len()
            invariant
                i <= list@.len(),
                lv == list.deep_view(),
                out.deep_view() + size_findings(lv, i as int, max) == old(out).deep_view()
                    + size_findings(lv, 0, max),
            decreases list.len() - i,
        {
            let m = &list[i];
            let ghost start = out.deep_view();
            proof {
                assert(lv[i as int] == m.deep_view());
            }
            if m.fields.len() > max {
                let mut t: Vec<char> = Vec::new();
                say(&mut t, "Model \"");
                say(&mut t, m.name.as_str());
                say(&mut t, "\" has ");
                say_number(&mut t, m.fields.len());
                say(&mut t, " fields (max ");
                say_number(&mut t, max);
                say(&mut t, "). Consider splitting into smaller models");
                proof {
                    assert(t@ =~= "Model \""@ + m.name@ + "\" has "@ + decimal(
                        m.fields@.len() as nat,
                    ) + " fields (max "@ + decimal(max as nat)
                        + "). Consider splitting into smaller models"@);
                }
                note(out, find_at("model-size", LintSeverity::Warning, m.source.as_str(), m.line, &t));
                proof {
                    assert(out.deep_view() + size_findings(lv, i + 1, max) =~= start + (seq![
                        size_finding(lv[i as int], max),
                    ] + size_findings(lv, i + 1, max)));
                }
            }
            i += 1;
        }
        proof {
            assert(out.deep_view() + Seq::<LintDiagnosticView>::empty() =~= out.deep_view());
        }
    }

    /// Checks the size of the models and views of a tree.
    pub fn check(&self, ast: &M3lAst) -> (r: Vec<LintDiagnostic>)
        ensures
            r.deep_view() == size_findings(ast.deep_view().models, 0, self.max_fields)
                + size_findings(ast.deep_view().views, 0, self.max_fields),
    {
        let mut out: Vec<LintDiagnostic> = Vec::new();
        proof {
            assert(out.deep_view() =~= Seq::empty());
        }
        self.check_list(&ast.models, &mut out);
        self.check_list(&ast.views, &mut out);
        proof {
            assert(out.deep_view() =~= size_findings(ast.deep_view().models, 0, self.max_fields)
                + size_findings(ast.deep_view().views, 0, self.max_fields));
        }
        out
    }
}

/// The rule that finds field names that are easily confused.
pub struct SimilarFieldsRule;

/// The finding for the field at `j` of `m`, which is similar to the one at `i`.
pub open spec fn similar_finding(m: ModelNodeView, i: int, j: int) -> LintDiagnosticView {
    finding(
        "similar-fields"@,
        LintSeverity::Info,
        m.source,
        m.fields[j].loc.line,
        "Field \""@ + m.fields[j].name + "\" is very similar to \""@ + m.fields[i].name
            + "\" in model \""@ + m.name + "\""@,
    )
}

/// The findings for the field at `i` and the fields from the `j`-th on.
pub open spec fn similar_to(m: ModelNodeView, i: int, j: int) -> Seq<LintDiagnosticView>
    decreases m.fields.len() - j,
{
    if i < 0 || j < 0 || i >= m.fields.len() || j >= m.fields.len() {
        Seq::empty()
    } else if similar(m.fields[i].name, m.fields[j].name) {
        seq![similar_finding(m, i, j)] + similar_to(m, i, j + 1)
    } else {
        similar_to(m, i, j + 1)
    }
}

/// The findings for the fields from the `i`-th on, each with those after it.
pub open spec fn similar_in(m: ModelNodeView, i: int) -> Seq<LintDiagnosticView>
    decreases m.fields.len() - i,
{
    if i < 0 || i >= m.fields.len() {
        Seq::empty()
    } else {
        similar_to(m, i, i + 1) + similar_in(m, i + 1)
    }
}

/// The findings for the models from the `k`-th on.
pub open spec fn similar_findings(list: Seq<ModelNodeView>, k: int) -> Seq<LintDiagnosticView>
    decreases list.len() - k,
{
    if k < 0 || k >= list.len() {
        Seq::empty()
    } else {
        similar_in(list[k], 0) + similar_findings(list, k + 1)
    }
}

impl SimilarFieldsRule {
    /// The name of the rule.
    pub fn id(&self) -> (r: &'static str)
        ensures
            r@ == "similar-fields"@,
    {
        "similar-fields"
    }

    /// What the rule asks for.
    pub fn description(&self) -> &'static str {
        "Detects fields with very similar names that may be confusing"
    }

    /// The severity of the findings where the configuration sets none.
    pub fn default_severity(&self) -> (r: LintSeverity)
        ensures
            r == LintSeverity::Info,
    {
        LintSeverity::Info
    }

    fn check_pairs(&self, m: &ModelNode, i: usize, out: &mut Vec<LintDiagnostic>)
        requires
            i < m.fields@.len(),
        ensures
            final(out).deep_view() == old(out).deep_view() + similar_to(
                m.deep_view(),
                i as int,
                i + 1,
            ),
    {
        let ghost mv = m.deep_view();
        let n = m.fields.len();
        let mut j: usize = i + 1;
        while j < n
            invariant
                i < j <= n == m.fields@.len(),
                mv == m.deep_view(),
                out.deep_view() + similar_to(mv, i as int, j as int) == old(out).deep_view()
                    + similar_to(mv, i as int, i + 1),
            decreases n - j,
        {
            let a = &m.fields[i];
            let b = &m.fields[j];
            let ghost start = out.deep_view();
            proof {
                assert(mv.fields[i as int] == field_view(a));
                assert(mv.fields[j as int] == field_view(b));
            }
            if are_similar(a.name.as_str(), b.name.as_str()) {
                let mut t: Vec<char> = Vec::new();
                say(&mut t, "Field \"");
                say(&mut t, b.name.as_str());
                say(&mut t, "\" is very similar to \"");
                say(&mut t, a.name.as_str());
                say(&mut t, "\" in model \"");
                say(&mut t, m.name.as_str());
                say(&mut t, "\"");
                proof {
                    assert(t@ =~= "Field \""@ + b.name@ + "\" is very similar to \""@ + a.name@
                        + "\" in model \""@ + m.name@ + "\""@);
                }
                note(
                    out,
                    find_at("similar-fields", LintSeverity::Info, m.source.as_str(), b.loc.line, &t),
                );
                proof {
                    assert(out.deep_view() + similar_to(mv, i as int, j + 1) =~= start + (seq![
                        similar_finding(mv, i as int, j as int),
                    ] + similar_to(mv, i as int, j + 1)));
                }
            }
            j += 1;
        }
        proof {
            assert(out.deep_view() + Seq::<LintDiagnosticView>::empty() =~= out.deep_view());
        }
    }

    fn check_list(&self, list: &Vec<ModelNode>, out: &mut Vec<LintDiagnostic>)
        ensures
            final(out).deep_view() == old(out).deep_view() + similar_findings(list.deep_view(), 0),
    {
        let ghost lv = list.deep_view();
        let mut k: usize = 0;
        while k < list.len()
            invariant
                k <= list@.len(),
                lv == list.deep_view(),
                out.deep_view() + similar_findings(lv, k as int) == old(out).deep_view()
                    + similar_findings(lv, 0),
            decreases list.len() - k,
        {
            let m = &list[k];
            let ghost mv = m.deep_view();
            let ghost begin = out.deep_view();
            proof {
                assert(lv[k as int] == mv);
            }
            let mut i: usize = 0;
            while i < m.fields.len()
                invariant
                    i <= m.fields@.len(),
                    mv == m.deep_view(),
                    out.deep_view() + similar_in(mv, i as int) == begin + similar_in(mv, 0),
                decreases m.fields.len() - i,
            {
                let ghost start = out.deep_view();
                self.check_pairs(m, i, out);
                proof {
                    assert(out.deep_view() + similar_in(mv, i + 1) =~= start + (similar_to(
                        mv,
                        i as int,
                        i + 1,
                    ) + similar_in(mv, i + 1)));
                }
                i += 1;
            }
            proof {
                assert(out.deep_view() + Seq::<LintDiagnosticView>::empty() =~= out.deep_view());
                assert(out.deep_view() + similar_findings(lv, k + 1) =~= begin + (similar_in(mv, 0)
                    + similar_findings(lv, k + 1)));
            }
            k += 1;
        }
        proof {
            assert(out.deep_view() + Seq::<LintDiagnosticView>::empty() =~= out.deep_view());
        }
    }

    /// Looks for similar field names in the models and views of a tree.
    pub fn check(&self, ast: &M3lAst) -> (r: Vec<LintDiagnostic>)
        ensures
            r.deep_view() == similar_findings(ast.deep_view().models, 0) + similar_findings(
                ast.deep_view().views,
                0,
            ),
    {
        let mut out: Vec<LintDiagnostic> = Vec::new();
        proof {
            assert(out.deep_view() =~= Seq::empty());
        }
        self.check_list(&ast.models, &mut out);
        self.check_list(&ast.views, &mut out);
        proof {
            assert(out.deep_view() =~= similar_findings(ast.deep_view().models, 0)
                + similar_findings(ast.deep_view().views, 0));
        }
        out
    }
}

/// The rule that asks models not to refer to too many others.
pub struct RelationComplexityRule {
    pub max_relations: usize,
}

/// How many of the fields from the `k`-th on carry `@reference` or `@fk`.
pub open spec fn reference_count(fields: Seq<FieldNodeView>, k: int) -> nat
    decreases fields.len() - k,
{
    if k < 0 || k >= fields.len() {
        0
    } else if has_reference(fields[k]) {
        1 + reference_count(fields, k + 1)
    } else {
        reference_count(fields, k + 1)
    }
}

proof fn lemma_reference_count(fields: Seq<FieldNodeView>, k: int)
    requires
        0 <= k <= fields.len(),
    ensures
        reference_count(fields, k) <= fields.len() - k,
    decreases fields.len() - k,
{
    if k < fields.len() {
        lemma_reference_count(fields, k + 1);
    }
}

/// The finding for a model with more than `max` reference fields.
pub open spec fn relations_finding(m: ModelNodeView, max: usize) -> LintDiagnosticView {
    finding(
        "relation-complexity"@,
        LintSeverity::Warning,
        m.source,
        m.line,
        "Model \""@ + m.name + "\" has "@ + decimal(reference_count(m.fields, 0))
            + " reference fields (max "@ + decimal(max as nat) + "). Consider decomposing"@,
    )
}

/// The findings for the models from the `i`-th on with more than `max`
/// reference fields.
pub open spec fn relations_findings(list: Seq<ModelNodeView>, i: int, max: usize) -> Seq<
    LintDiagnosticView,
>
    decreases list.len() - i,
{
    if i < 0 || i >= list.len() {
        Seq::empty()
    } else if reference_count(list[i].fields, 0) > max {
        seq![relations_finding(list[i], max)] + relations_findings(list, i + 1, max)
    } else {
        relations_findings(list, i + 1, max)
    }
}

impl Default for RelationComplexityRule {
    fn default() -> (r: Self)
        ensures
            r.max_relations == 5,
    {
        RelationComplexityRule { max_relations: 5 }
    }
}

fn count_references(fields: &Vec<FieldNode>) -> (r: usize)
    ensures
        r == reference_count(fields.deep_view(), 0),
{
    let mut count: usize = 0;
    let n = fields.len();
    let mut k: usize = n;
    while k > 0
        invariant
            k <= n == fields@.len(),
            count == reference_count(fields.deep_view(), k as int),
        decreases k,
    {
        proof {
            lemma_reference_count(fields.deep_view(), k as int);
        }
        k -= 1;
        proof {
            assert(fields.deep_view()[k as int] == field_view(&fields@[k as int]));
        }
        if is_reference(&fields[k]) {
            count += 1;
        }
    }
    count
}

impl RelationComplexityRule {
    /// The name of the rule.
    pub fn id(&self) -> (r: &'static str)
        ensures
            r@ == "relation-complexity"@,
    {
        "relation-complexity"
    }

    /// What the rule asks for.
    pub fn description(&self) -> &'static str {
        "Models should not have too many outgoing references"
    }

    /// The severity of the findings where the configuration sets none.
    pub fn default_severity(&self) -> (r: LintSeverity)
        ensures
            r == LintSeverity::Warning,
    {
        LintSeverity::Warning
    }

    fn check_list(&self, list: &Vec<ModelNode>, out: &mut Vec<LintDiagnostic>)
        ensures
            final(out).deep_view() == old(out).deep_view() + relations_findings(
                list.deep_view(),
                0,
                self.max_relations,
            ),
    {
        let ghost lv = list.deep_view();
        let max = self.max_relations;
        let mut i: usize = 0;
        while i < list.len()
            invariant
                i <= list@.len(),
                lv == list.deep_view(),
                out.deep_view() + relations_findings(lv, i as int, max) == old(out).deep_view()
                    + relations_findings(lv, 0, max),
            decreases list.len() - i,
        {
            let m = &list[i];
            let ghost start = out.deep_view();
            proof {
                assert(lv[i as int] == m.deep_view());
            }
            let count = count_references(&m.fields);
            if count > max {
                let mut t: Vec<char> = Vec::new();
                say(&mut t, "Model \"");
                say(&mut t, m.name.as_str());
                say(&mut t, "\" has ");
                say_number(&mut t, count);
                say(&mut t, " reference fields (max ");
                say_number(&mut t, max);
                say(&mut t, "). Consider decomposing");
                proof {
                    assert(t@ =~= "Model \""@ + m.name@ + "\" has "@ + decimal(count as nat)
                        + " reference fields (max "@ + decimal(max as nat)
                        + "). Consider decomposing"@);
                }
                note(
                    out,
                    find_at("relation-complexity", LintSeverity::Warning, m.source.as_str(), m.line, &t),
                );
                proof {
                    assert(out.deep_view() + relations_findings(lv, i + 1, max) =~= start + (seq![
                        relations_finding(lv[i as int], max),
                    ] + relations_findings(lv, i + 1, max)));
                }
            }
            i += 1;
        }
        proof {
            assert(out.deep_view() + Seq::<LintDiagnosticView>::empty() =~= out.deep_view());
        }
    }

    /// Counts the reference fields of the models and views of a tree.
    pub fn check(&self, ast: &M3lAst) -> (r: Vec<LintDiagnostic>)
        ensures
            r.deep_view() == relations_findings(ast.deep_view().models, 0, self.max_relations)
                + relations_findings(ast.deep_view().views, 0, self.max_relations),
    {
        let mut out: Vec<LintDiagnostic> = Vec::new();
        proof {
            assert(out.deep_view() =~= Seq::empty());
        }
        self.check_list(&ast.models, &mut out);
        self.check_list(&ast.views, &mut out);
        proof {
            assert(out.deep_view() =~= relations_findings(
                ast.deep_view().models,
                0,
                self.max_relations,
            ) + relations_findings(ast.deep_view().views, 0, self.max_relations));
        }
        out
    }
}

/// The findings with the severity `severity` in place of their own.
pub open spec fn with_severity(list: Seq<LintDiagnosticView>, severity: LintSeverity) -> Seq<
    LintDiagnosticView,
> {
    Seq::new(list.len(), |i: int| LintDiagnosticView { severity: severity, ..list[i] })
}

/// What a rule adds to the findings of the linter: nothing where it is
/// switched off, else its findings with the severity that the configuration
/// gives it, or with its own.
pub open spec fn rule_findings(
    rules: Seq<(String, RuleLevel)>,
    id: Seq<char>,
    default: LintSeverity,
    found: Seq<LintDiagnosticView>,
) -> Seq<LintDiagnosticView> {
    if level_of(rules, id) == Some(RuleLevel::Off) {
        Seq::empty()
    } else {
        with_severity(found, severity_of(level_of(rules, id), default))
    }
}

/// The linter: the built-in rules and a configuration.
pub struct Linter {
    pub config: LintConfig,
    pub naming: NamingConventionRule,
    pub size: ModelSizeRule,
    pub similar: SimilarFieldsRule,
    pub relations: RelationComplexityRule,
}

/// What the linter finds in a tree, rule by rule: naming, size, similar
/// fields, references.
pub open spec fn lint_findings(linter: &Linter, ast: M3lAstView) -> Seq<LintDiagnosticView> {
    let rules = linter.config.rules@;
    rule_findings(rules, "naming-convention"@, LintSeverity::Warning, naming_findings(ast))
        + rule_findings(
        rules,
        "model-size"@,
        LintSeverity::Warning,
        size_findings(ast.models, 0, linter.size.max_fields) + size_findings(
            ast.views,
            0,
            linter.size.max_fields,
        ),
    ) + rule_findings(
        rules,
        "similar-fields"@,
        LintSeverity::Info,
        similar_findings(ast.models, 0) + similar_findings(ast.views, 0),
    ) + rule_findings(
        rules,
        "relation-complexity"@,
        LintSeverity::Warning,
        relations_findings(ast.models, 0, linter.relations.max_relations) + relations_findings(
            ast.views,
            0,
            linter.relations.max_relations,
        ),
    )
}

fn add_findings(
    config: &LintConfig,
    id: &str,
    default: LintSeverity,
    found: Vec<LintDiagnostic>,
    out: &mut Vec<LintDiagnostic>,
)
    ensures
        final(out).deep_view() == old(out).deep_view() + rule_findings(
            config.rules@,
            id@,
            default,
            found.deep_view(),
        ),
{
    let ghost before = out.deep_view();
    if !config.is_enabled(id) {
        proof {
            assert(before + Seq::<LintDiagnosticView>::empty() =~= before);
        }
        return ;
    }
    let severity = config.severity_for(id, default);
    let ghost all = with_severity(found.deep_view(), severity);
    let mut i: usize = 0;
    proof {
        assert(all.take(0) =~= Seq::empty());
        assert(before + Seq::<LintDiagnosticView>::empty() =~= before);
    }
    while i < found.len()
        invariant
            i <= found@.len(),
            all == with_severity(found.deep_view(), severity),
            out.deep_view() == before + all.take(i as int),
        decreases found.len() - i,
    {
        let d = &found[i];
        let ghost now = out.deep_view();
        proof {
            assert(found.deep_view()[i as int] == d.deep_view());
        }
        let e = LintDiagnostic {
            rule: d.rule.clone(),
            severity,
            file: d.file.clone(),
            line: d.line,
            col: d.col,
            message: d.message.clone(),
        };
        note(out, e);
        proof {
            assert(all.take(i + 1) =~= all.take(i as int).push(all[i as int]));
            assert(out.deep_view() =~= before + all.take(i + 1));
        }
        i += 1;
    }
    proof {
        assert(all.take(found@.len() as int) =~= all);
    }
}

impl Linter {
    /// A linter with the built-in rules and the given configuration.
    pub fn new(config: LintConfig) -> (r: Self)
        ensures
            r.config == config,
            r.size.max_fields == 20,
            r.relations.max_relations == 5,
    {
        Linter {
            config,
            naming: NamingConventionRule,
            size: ModelSizeRule::default(),
            similar: SimilarFieldsRule,
            relations: RelationComplexityRule::default(),
        }
    }

    /// Runs the rules that are enabled on a tree.
    pub fn lint(&self, ast: &M3lAst) -> (r: Vec<LintDiagnostic>)
        ensures
            r.deep_view() == lint_findings(self, ast.deep_view()),
    {
        let mut out: Vec<LintDiagnostic> = Vec::new();
        proof {
            assert(out.deep_view() =~= Seq::empty());
        }
        add_findings(
            &self.config,
            self.naming.id(),
            self.naming.default_severity(),
            self.naming.check(ast),
            &mut out,
        );
        add_findings(
            &self.config,
            self.size.id(),
            self.size.default_severity(),
            self.size.check(ast),
            &mut out,
        );
        add_findings(
            &self.config,
            self.similar.id(),
            self.similar.default_severity(),
            self.similar.check(ast),
            &mut out,
        );
        add_findings(
            &self.config,
            self.relations.id(),
            self.relations.default_severity(),
            self.relations.check(ast),
            &mut out,
        );
        proof {
            assert(out.deep_view() =~= lint_findings(self, ast.deep_view()));
        }
        out
    }
}

impl Default for Linter {
    fn default() -> (r: Self)
        ensures
            r.config.rules@.len() == 0,
    {
        Linter::new(LintConfig::default())
    }
}

} // verus!
