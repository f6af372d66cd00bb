//! What the tools print: the reports of validation and of the linter, for
//! people and as JSON, and the envelope that the JSON entry points answer in.

use vstd::prelude::*;
use crate::json::{
    diagnostic_json_list, diagnostic_to_json, m3l_ast_json, m3l_ast_to_json, severity_text,
    severity_word, validate_result_json, validate_result_to_json,
};
use crate::lint::{LintDiagnostic, LintDiagnosticView, LintSeverity};
use crate::pipeline::{parse, parse_multi, parsed_files, parsed_text, report_name, validate_content};
use crate::report::{say, say_number};
use crate::resolver::resolved;
use crate::text::{decimal, from_chars, join};
use crate::types::{
    lemma_json_array, Diagnostic, DiagnosticView, JsonMember, JsonValue, JsonView, M3lFile,
    ValidateJsonOptions, ValidateResult, ValidateResultView,
};
use crate::validator::validated;
use crate::values::{object, push_member, text_json};

verus! {

/// The answer of a JSON entry point that succeeded.
pub open spec fn success(data: JsonView) -> JsonView {
    JsonView::Object(seq![("success"@, JsonView::Bool(true)), ("data"@, data)])
}

/// The answer of a JSON entry point that failed.
pub open spec fn failure(error: Seq<char>) -> JsonView {
    JsonView::Object(seq![("success"@, JsonView::Bool(false)), ("error"@, JsonView::String(error))])
}

/// Wraps a result into the answer of a JSON entry point.
pub fn ffi_success(data: JsonValue) -> (r: JsonValue)
    ensures
        r.deep_view() == success(data.deep_view()),
{
    let mut m: Vec<JsonMember> = Vec::new();
    proof {
        assert(m.deep_view() =~= Seq::empty());
    }
    push_member(&mut m, "success", JsonValue::Bool(true));
    push_member(&mut m, "data", data);
    proof {
        assert(m.deep_view() =~= seq![("success"@, JsonView::Bool(true)), ("data"@, data.deep_view())]);
    }
    object(m)
}

/// Wraps an error into the answer of a JSON entry point.
pub fn ffi_failure(error: &str) -> (r: JsonValue)
    ensures
        r.deep_view() == failure(error@),
{
    let mut m: Vec<JsonMember> = Vec::new();
    proof {
        assert(m.deep_view() =~= Seq::empty());
    }
    push_member(&mut m, "success", JsonValue::Bool(false));
    push_member(&mut m, "error", text_json(error));
    proof {
        assert(m.deep_view() =~= seq![
            ("success"@, JsonView::Bool(false)),
            ("error"@, JsonView::String(error@)),
        ]);
    }
    object(m)
}

/// Parses one source text and answers with the resolved tree as JSON.
pub fn parse_to_json(content: &str, filename: &str) -> (r: JsonValue)
    ensures
        r.deep_view() == success(
            m3l_ast_json(resolved(seq![parsed_text(content@, filename@)], None)),
        ),
{
    ffi_success(m3l_ast_to_json(&parse(content, filename)))
}

/// Parses several source texts and answers with the resolved tree as JSON.
pub fn parse_multi_to_json(files: &[M3lFile]) -> (r: JsonValue)
    ensures
        r.deep_view() == success(m3l_ast_json(resolved(parsed_files(files.deep_view()), None))),
{
    ffi_success(m3l_ast_to_json(&parse_multi(files)))
}

/// Validates one source text and answers with the diagnostics as JSON.
pub fn validate_to_json(content: &str, options: &ValidateJsonOptions) -> (r: JsonValue)
    ensures
        r.deep_view() == success(
            validate_result_json(
                validated(
                    resolved(seq![parsed_text(content@, report_name(options.filename@))], None),
                    options.strict,
                ),
            ),
        ),
{
    ffi_success(validate_result_to_json(&validate_content(content, options)))
}

/// `word` for one, `word` with an `s` for any other number.
pub open spec fn counted(n: nat, word: Seq<char>) -> Seq<char> {
    decimal(n) + " "@ + word + (if n == 1 {
        Seq::empty()
    } else {
        "s"@
    })
}

fn say_counted(t: &mut Vec<char>, n: usize, word: &str)
    ensures
        final(t)@ == old(t)@ + counted(n as nat, word@),
{
    let ghost start = t@;
    say_number(t, n);
    say(t, " ");
    say(t, word);
    if n != 1 {
        say(t, "s");
    }
    proof {
        assert(t@ =~= start + (decimal(n as nat) + " "@ + word@ + (if n == 1 {
            Seq::empty()
        } else {
            "s"@
        })));
    }
}

/// The line of a diagnostic: its place, its severity with its code, and its message.
pub open spec fn diagnostic_line(d: DiagnosticView) -> Seq<char> {
    d.file + ":"@ + decimal(d.line as nat) + ":"@ + decimal(d.col as nat) + " "@ + severity_word(
        d.severity,
    ) + "["@ + d.code + "]: "@ + d.message
}

/// The lines of a list of diagnostics.
pub open spec fn diagnostic_lines(list: Seq<DiagnosticView>) -> Seq<Seq<char>> {
    Seq::new(list.len(), |i: int| diagnostic_line(list[i]))
}

/// The report of a validation for people: a line for each error, a line
/// for each warning, and the totals.
pub open spec fn validation_report(r: ValidateResultView, files: nat) -> Seq<char> {
    join(
        diagnostic_lines(r.errors) + diagnostic_lines(r.warnings) + seq![
            counted(r.errors.len(), "error"@) + ", "@ + counted(r.warnings.len(), "warning"@)
                + " in "@ + counted(files, "file"@) + "."@,
        ],
        seq!['\n'],
    )
}

fn add_diagnostic_lines(lines: &mut Vec<String>, list: &Vec<Diagnostic>)
    ensures
        final(lines).deep_view() == old(lines).deep_view() + diagnostic_lines(list.deep_view()),
{
    let ghost start = lines.deep_view();
    let ghost all = diagnostic_lines(list.deep_view());
    let mut i: usize = 0;
    proof {
        assert(start + all.take(0) =~= start);
    }
    while i < list.len()
        invariant
            i <= list@.len(),
            all == diagnostic_lines(list.deep_view()),
            lines.deep_view() == start + all.take(i as int),
        decreases list.len() - i,
    {
        let d = &list[i];
        proof {
            assert(list.deep_view()[i as int] == d.deep_view());
        }
        let mut t: Vec<char> = Vec::new();
        say(&mut t, d.file.as_str());
        say(&mut t, ":");
        say_number(&mut t, d.line);
        say(&mut t, ":");
        say_number(&mut t, d.col);
        say(&mut t, " ");
        say(&mut t, severity_text(d.severity));
        say(&mut t, "[");
        say(&mut t, d.code.as_str());
        say(&mut t, "]: ");
        say(&mut t, d.message.as_str());
        proof {
            assert(t@ =~= all[i as int]);
            assert(all.take(i + 1) =~= all.take(i as int).push(all[i as int]));
        }
        let ghost now = lines.deep_view();
        lines.push(from_chars(&t));
        proof {
            assert(lines.deep_view() =~= now.push(t@));
            assert(lines.deep_view() =~= start + all.take(i + 1));
        }
        i += 1;
    }
    proof {
        assert(all.take(list@.len() as int) =~= all);
    }
}

fn join_report(lines: &Vec<String>) -> (r: String)
    ensures
        r@ == join(lines.deep_view(), seq!['\n']),
{
    let ghost all = lines.deep_view();
    let mut out: Vec<char> = Vec::new();
    let mut k: usize = 0;
    proof {
        assert(all.take(0) =~= Seq::empty());
    }
    while k < lines.len()
        invariant
            k <= lines@.len(),
            all == lines.deep_view(),
            out@ == join(all.take(k as int), seq!['\n']),
        decreases lines.len() - k,
    {
        let ghost before = all.take(k as int);
        let ghost after = all.take(k + 1);
        let ghost now = out@;
        proof {
            assert(all[k as int] == lines@[k as int]@);
            assert(after.drop_last() =~= before);
            assert(after.last() == lines@[k as int]@);
        }
        if k > 0 {
            out.push('\n');
        }
        say(&mut out, lines[k].as_str());
        proof {
            if k > 0 {
                assert(out@ =~= now + seq!['\n'] + lines@[k as int]@);
            } else {
                assert(out@ =~= lines@[k as int]@);
            }
        }
        k += 1;
    }
    proof {
        assert(all.take(lines@.len() as int) =~= all);
    }
    from_chars(&out)
}

/// Writes the report of a validation for people; `files` is the number of
/// files that were validated.
pub fn report_validation(result: &ValidateResult, files: usize) -> (r: String)
    ensures
        r@ == validation_report(result.deep_view(), files as nat),
{
    let mut lines: Vec<String> = Vec::new();
    proof {
        assert(lines.deep_view() =~= Seq::empty());
    }
    add_diagnostic_lines(&mut lines, &result.errors);
    add_diagnostic_lines(&mut lines, &result.warnings);
    let mut t: Vec<char> = Vec::new();
    say_counted(&mut t, result.errors.len(), "error");
    say(&mut t, ", ");
    say_counted(&mut t, result.warnings.len(), "warning");
    say(&mut t, " in ");
    say_counted(&mut t, files, "file");
    say(&mut t, ".");
    let ghost rv = result.deep_view();
    proof {
        assert(t@ =~= counted(rv.errors.len(), "error"@) + ", "@ + counted(
            rv.warnings.len(),
            "warning"@,
        ) + " in "@ + counted(files as nat, "file"@) + "."@);
    }
    let ghost now = lines.deep_view();
    lines.push(from_chars(&t));
    proof {
        assert(lines.deep_view() =~= now.push(t@));
        assert(lines.deep_view() =~= diagnostic_lines(rv.errors) + diagnostic_lines(rv.warnings)
            + seq![t@]);
    }
    join_report(&lines)
}

/// A count as a JSON number.
pub open spec fn count_json(n: nat) -> JsonView {
    JsonView::Int(n as int)
}

/// The report of a validation as JSON: the diagnostics, errors first, and
/// the totals.
pub open spec fn validation_json(r: ValidateResultView, files: nat) -> JsonView {
    JsonView::Object(
        seq![
            (
                "diagnostics"@,
                JsonView::Array(diagnostic_json_list(r.errors) + diagnostic_json_list(r.warnings)),
            ),
            (
                "summary"@,
                JsonView::Object(
                    seq![
                        ("errors"@, count_json(r.errors.len())),
                        ("warnings"@, count_json(r.warnings.len())),
                        ("files"@, count_json(files)),
                    ],
                ),
            ),
        ],
    )
}

fn add_diagnostics_json(out: &mut Vec<JsonValue>, list: &Vec<Diagnostic>)
    ensures
        final(out).deep_view() == old(out).deep_view() + diagnostic_json_list(list.deep_view()),
{
    let ghost start = out.deep_view();
    let ghost all = diagnostic_json_list(list.deep_view());
    let mut i: usize = 0;
    proof {
        assert(start + all.take(0) =~= start);
    }
    while i < list.len()
        invariant
            i <= list@.len(),
            all == diagnostic_json_list(list.deep_view()),
            out.deep_view() == start + all.take(i as int),
        decreases list.len() - i,
    {
        proof {
            assert(list.deep_view()[i as int] == list@[i as int].deep_view());
            assert(all.take(i + 1) =~= all.take(i as int).push(all[i as int]));
        }
        let ghost now = out.deep_view();
        let v = diagnostic_to_json(&list[i]);
        out.push(v);
        proof {
            assert(out.deep_view() =~= now.push(v.deep_view()));
            assert(out.deep_view() =~= start + all.take(i + 1));
        }
        i += 1;
    }
    proof {
        assert(all.take(list@.len() as int) =~= all);
    }
}

fn count_value(n: usize) -> (r: JsonValue)
    ensures
        r.deep_view() == count_json(n as nat),
{
    JsonValue::UInt(n as u64)
}

/// Builds the report of a validation as JSON.
pub fn report_validation_json(result: &ValidateResult, files: usize) -> (r: JsonValue)
    ensures
        r.deep_view() == validation_json(result.deep_view(), files as nat),
{
    let mut list: Vec<JsonValue> = Vec::new();
    proof {
        assert(list.deep_view() =~= Seq::empty());
    }
    add_diagnostics_json(&mut list, &result.errors);
    add_diagnostics_json(&mut list, &result.warnings);
    proof {
        lemma_json_array(list);
        assert(list.deep_view() =~= diagnostic_json_list(result.deep_view().errors)
            + diagnostic_json_list(result.deep_view().warnings));
    }
    let mut summary: Vec<JsonMember> = Vec::new();
    proof {
        assert(summary.deep_view() =~= Seq::empty());
    }
    push_member(&mut summary, "errors", count_value(result.errors.len()));
    push_member(&mut summary, "warnings", count_value(result.warnings.len()));
    push_member(&mut summary, "files", count_value(files));
    proof {
        assert(summary.deep_view() =~= seq![
            ("errors"@, count_json(result.deep_view().errors.len())),
            ("warnings"@, count_json(result.deep_view().warnings.len())),
            ("files"@, count_json(files as nat)),
        ]);
    }
    let mut m: Vec<JsonMember> = Vec::new();
    proof {
        assert(m.deep_view() =~= Seq::empty());
    }
    push_member(&mut m, "diagnostics", JsonValue::Array(list));
    push_member(&mut m, "summary", object(summary));
    proof {
        assert(m.deep_view() =~= seq![
            (
                "diagnostics"@,
                JsonView::Array(
                    diagnostic_json_list(result.deep_view().errors) + diagnostic_json_list(
                        result.deep_view().warnings,
                    ),
                ),
            ),
            (
                "summary"@,
                JsonView::Object(
                    seq![
                        ("errors"@, count_json(result.deep_view().errors.len())),
                        ("warnings"@, count_json(result.deep_view().warnings.len())),
                        ("files"@, count_json(files as nat)),
                    ],
                ),
            ),
        ]);
    }
    object(m)
}

/// The word for the severity of a finding.
pub open spec fn finding_word(s: LintSeverity) -> Seq<char> {
    match s {
        LintSeverity::Error => "error"@,
        LintSeverity::Warning => "warning"@,
        LintSeverity::Info => "info"@,
    }
}

fn finding_text(s: LintSeverity) -> (r: &'static str)
    ensures
        r@ == finding_word(s),
{
    match s {
        LintSeverity::Error => "error",
        LintSeverity::Warning => "warning",
        LintSeverity::Info => "info",
    }
}

/// The line of a finding: its place, its severity with its rule, and its message.
pub open spec fn finding_line(d: LintDiagnosticView) -> Seq<char> {
    d.file + ":"@ + decimal(d.line as nat) + ":"@ + decimal(d.col as nat) + " "@ + finding_word(
        d.severity,
    ) + "["@ + d.rule + "]: "@ + d.message
}

/// The lines of a list of findings.
pub open spec fn finding_lines(list: Seq<LintDiagnosticView>) -> Seq<Seq<char>> {
    Seq::new(list.len(), |i: int| finding_line(list[i]))
}

/// The report of the linter for people: a line for each finding, and the totals.
pub open spec fn lint_report(list: Seq<LintDiagnosticView>, files: nat) -> Seq<char> {
    join(
        finding_lines(list) + seq![
            decimal(list.len()) + " lint issue"@ + (if list.len() == 1 {
                Seq::empty()
            } else {
                "s"@
            }) + " in "@ + counted(files, "file"@) + "."@,
        ],
        seq!['\n'],
    )
}

/// Writes the report of the linter for people.
pub fn report_lint(list: &Vec<LintDiagnostic>, files: usize) -> (r: String)
    ensures
        r@ == lint_report(list.deep_view(), files as nat),
{
    let mut lines: Vec<String> = Vec::new();
    let ghost all = finding_lines(list.deep_view());
    let mut i: usize = 0;
    proof {
        assert(lines.deep_view() =~= all.take(0));
    }
    while i < list.len()
        invariant
            i <= list@.len(),
            all == finding_lines(list.deep_view()),
            lines.deep_view() == all.take(i as int),
        decreases list.len() - i,
    {
        let d = &list[i];
        proof {
            assert(list.deep_view()[i as int] == d.deep_view());
        }
        let mut t: Vec<char> = Vec::new();
        say(&mut t, d.file.as_str());
        say(&mut t, ":");
        say_number(&mut t, d.line);
        say(&mut t, ":");
        say_number(&mut t, d.col);
        say(&mut t, " ");
        say(&mut t, finding_text(d.severity));
        say(&mut t, "[");
        say(&mut t, d.rule.as_str());
        say(&mut t, "]: ");
        say(&mut t, d.message.as_str());
        proof {
            assert(t@ =~= all[i as int]);
            assert(all.take(i + 1) =~= all.take(i as int).push(all[i as int]));
        }
        let ghost now = lines.deep_view();
        lines.push(from_chars(&t));
        proof {
            assert(lines.deep_view() =~= now.push(t@));
        }
        i += 1;
    }
    proof {
        assert(all.take(list@.len() as int) =~= all);
    }
    let n = list.len();
    let mut t: Vec<char> = Vec::new();
    say_number(&mut t, n);
    say(&mut t, " lint issue");
    if n != 1 {
        say(&mut t, "s");
    }
    say(&mut t, " in ");
    say_counted(&mut t, files, "file");
    say(&mut t, ".");
    proof {
        assert(t@ =~= decimal(n as nat) + " lint issue"@ + (if n == 1 {
            Seq::empty()
        } else {
            "s"@
        }) + " in "@ + counted(files as nat, "file"@) + "."@);
    }
    let ghost now = lines.deep_view();
    lines.push(from_chars(&t));
    proof {
        assert(lines.deep_view() =~= now.push(t@));
        assert(lines.deep_view() =~= finding_lines(list.deep_view()) + seq![t@]);
    }
    join_report(&lines)
}

/// A finding as JSON.
pub open spec fn finding_json(d: LintDiagnosticView) -> JsonView {
    JsonView::Object(
        seq![
            ("rule"@, JsonView::String(d.rule)),
            ("severity"@, JsonView::String(finding_word(d.severity))),
            ("file"@, JsonView::String(d.file)),
            ("line"@, JsonView::Int(d.line as int)),
            ("col"@, JsonView::Int(d.col as int)),
            ("message"@, JsonView::String(d.message)),
        ],
    )
}

/// The findings as JSON.
pub open spec fn finding_json_list(list: Seq<LintDiagnosticView>) -> Seq<JsonView> {
    Seq::new(list.len(), |i: int| finding_json(list[i]))
}

/// Turns a finding into JSON.
pub fn finding_to_json(d: &LintDiagnostic) -> (r: JsonValue)
    ensures
        r.deep_view() == finding_json(d.deep_view()),
{
    let mut m: Vec<JsonMember> = Vec::new();
    proof {
        assert(m.deep_view() =~= Seq::empty());
    }
    push_member(&mut m, "rule", JsonValue::String(d.rule.clone()));
    push_member(&mut m, "severity", text_json(finding_text(d.severity)));
    push_member(&mut m, "file", JsonValue::String(d.file.clone()));
    push_member(&mut m, "line", JsonValue::UInt(d.line as u64));
    push_member(&mut m, "col", JsonValue::UInt(d.col as u64));
    push_member(&mut m, "message", JsonValue::String(d.message.clone()));
    proof {
        assert(m.deep_view() =~= seq![
            ("rule"@, JsonView::String(d.rule@)),
            ("severity"@, JsonView::String(finding_word(d.severity))),
            ("file"@, JsonView::String(d.file@)),
            ("line"@, JsonView::Int(d.line as int)),
            ("col"@, JsonView::Int(d.col as int)),
            ("message"@, JsonView::String(d.message@)),
        ]);
    }
    object(m)
}

/// The report of the linter as JSON: the findings and the totals.
pub open spec fn lint_json(list: Seq<LintDiagnosticView>, files: nat) -> JsonView {
    JsonView::Object(
        seq![
            ("diagnostics"@, JsonView::Array(finding_json_list(list))),
            (
                "summary"@,
                JsonView::Object(
                    seq![("count"@, count_json(list.len())), ("files"@, count_json(files))],
                ),
            ),
        ],
    )
}

fn findings_to_json(list: &Vec<LintDiagnostic>) -> (r: JsonValue)
    ensures
        r.deep_view() == JsonView::Array(finding_json_list(list.deep_view())),
{
    let mut out: Vec<JsonValue> = Vec::new();
    let mut i: usize = 0;
    while i < list.len()
        invariant
            i <= list@.len(),
            out@.len() == i,
            forall|j: int| 0 <= j < i ==> out@[j].deep_view() == finding_json(list@[j].deep_view()),
        decreases list.len() - i,
    {
        out.push(finding_to_json(&list[i]));
        i += 1;
    }
    proof {
        lemma_json_array(out);
        assert(out.deep_view() =~= finding_json_list(list.deep_view()));
    }
    JsonValue::Array(out)
}

/// Builds the report of the linter as JSON.
pub fn report_lint_json(list: &Vec<LintDiagnostic>, files: usize) -> (r: JsonValue)
    ensures
        r.deep_view() == lint_json(list.deep_view(), files as nat),
{
    let mut summary: Vec<JsonMember> = Vec::new();
    proof {
        assert(summary.deep_view() =~= Seq::empty());
    }
    push_member(&mut summary, "count", count_value(list.len()));
    push_member(&mut summary, "files", count_value(files));
    proof {
        assert(summary.deep_view() =~= seq![
            ("count"@, count_json(list.deep_view().len())),
            ("files"@, count_json(files as nat)),
        ]);
    }
    let mut m: Vec<JsonMember> = Vec::new();
    proof {
        assert(m.deep_view() =~= Seq::empty());
    }
    push_member(&mut m, "diagnostics", findings_to_json(list));
    push_member(&mut m, "summary", object(summary));
    proof {
        assert(m.deep_view() =~= seq![
            ("diagnostics"@, JsonView::Array(finding_json_list(list.deep_view()))),
            (
                "summary"@,
                JsonView::Object(
                    seq![
                        ("count"@, count_json(list.deep_view().len())),
                        ("files"@, count_json(files as nat)),
                    ],
                ),
            ),
        ]);
    }
    object(m)
}

/// The level that SARIF knows a severity as.
pub open spec fn sarif_level(s: LintSeverity) -> Seq<char> {
    match s {
        LintSeverity::Error => "error"@,
        LintSeverity::Warning => "warning"@,
        LintSeverity::Info => "note"@,
    }
}

fn sarif_level_text(s: LintSeverity) -> (r: &'static str)
    ensures
        r@ == sarif_level(s),
{
    match s {
        LintSeverity::Error => "error",
        LintSeverity::Warning => "warning",
        LintSeverity::Info => "note",
    }
}

/// An object with one member.
pub open spec fn single(key: Seq<char>, value: JsonView) -> JsonView {
    JsonView::Object(seq![(key, value)])
}

fn single_object(key: &str, value: JsonValue) -> (r: JsonValue)
    ensures
        r.deep_view() == single(key@, value.deep_view()),
{
    let mut m: Vec<JsonMember> = Vec::new();
    proof {
        assert(m.deep_view() =~= Seq::empty());
    }
    push_member(&mut m, key, value);
    proof {
        assert(m.deep_view() =~= seq![(key@, value.deep_view())]);
    }
    object(m)
}

/// A rule as SARIF describes it.
pub open spec fn sarif_rule(id: Seq<char>, description: Seq<char>, severity: LintSeverity) -> JsonView {
    JsonView::Object(
        seq![
            ("id"@, JsonView::String(id)),
            ("shortDescription"@, single("text"@, JsonView::String(description))),
            (
                "defaultConfiguration"@,
                single("level"@, JsonView::String(sarif_level(severity))),
            ),
        ],
    )
}

fn make_sarif_rule(id: &str, description: &str, severity: LintSeverity) -> (r: JsonValue)
    ensures
        r.deep_view() == sarif_rule(id@, description@, severity),
{
    let mut m: Vec<JsonMember> = Vec::new();
    proof {
        assert(m.deep_view() =~= Seq::empty());
    }
    push_member(&mut m, "id", text_json(id));
    push_member(&mut m, "shortDescription", single_object("text", text_json(description)));
    push_member(
        &mut m,
        "defaultConfiguration",
        single_object("level", text_json(sarif_level_text(severity))),
    );
    proof {
        assert(m.deep_view() =~= seq![
            ("id"@, JsonView::String(id@)),
            ("shortDescription"@, single("text"@, JsonView::String(description@))),
            (
                "defaultConfiguration"@,
                single("level"@, JsonView::String(sarif_level(severity))),
            ),
        ]);
    }
    object(m)
}

/// A finding as a SARIF result.
pub open spec fn sarif_result(d: LintDiagnosticView) -> JsonView {
    JsonView::Object(
        seq![
            ("ruleId"@, JsonView::String(d.rule)),
            ("level"@, JsonView::String(sarif_level(d.severity))),
            ("message"@, single("text"@, JsonView::String(d.message))),
            (
                "locations"@,
                JsonView::Array(
                    seq![
                        single(
                            "physicalLocation"@,
                            JsonView::Object(
                                seq![
                                    (
                                        "artifactLocation"@,
                                        single("uri"@, JsonView::String(d.file)),
                                    ),
                                    (
                                        "region"@,
                                        JsonView::Object(
                                            seq![
                                                ("startLine"@, JsonView::Int(d.line as int)),
                                                ("startColumn"@, JsonView::Int(d.col as int)),
                                            ],
                                        ),
                                    ),
                                ],
                            ),
                        ),
                    ],
                ),
            ),
        ],
    )
}

/// The findings as SARIF results.
pub open spec fn sarif_results(list: Seq<LintDiagnosticView>) -> Seq<JsonView> {
    Seq::new(list.len(), |i: int| sarif_result(list[i]))
}

fn make_sarif_result(d: &LintDiagnostic) -> (r: JsonValue)
    ensures
        r.deep_view() == sarif_result(d.deep_view()),
{
    let mut region: Vec<JsonMember> = Vec::new();
    proof {
        assert(region.deep_view() =~= Seq::empty());
    }
    push_member(&mut region, "startLine", JsonValue::UInt(d.line as u64));
    push_member(&mut region, "startColumn", JsonValue::UInt(d.col as u64));
    proof {
        assert(region.deep_view() =~= seq![
            ("startLine"@, JsonView::Int(d.line as int)),
            ("startColumn"@, JsonView::Int(d.col as int)),
        ]);
    }
    let mut place: Vec<JsonMember> = Vec::new();
    proof {
        assert(place.deep_view() =~= Seq::empty());
    }
    push_member(
        &mut place,
        "artifactLocation",
        single_object("uri", JsonValue::String(d.file.clone())),
    );
    push_member(&mut place, "region", object(region));
    proof {
        assert(place.deep_view() =~= seq![
            ("artifactLocation"@, single("uri"@, JsonView::String(d.file@))),
            (
                "region"@,
                JsonView::Object(
                    seq![
                        ("startLine"@, JsonView::Int(d.line as int)),
                        ("startColumn"@, JsonView::Int(d.col as int)),
                    ],
                ),
            ),
        ]);
    }
    let mut locations: Vec<JsonValue> = Vec::new();
    let location = single_object("physicalLocation", object(place));
    locations.push(location);
    proof {
        lemma_json_array(locations);
        assert(locations.deep_view() =~= seq![location.deep_view()]);
    }
    let mut m: Vec<JsonMember> = Vec::new();
    proof {
        assert(m.deep_view() =~= Seq::empty());
    }
    push_member(&mut m, "ruleId", JsonValue::String(d.rule.clone()));
    push_member(&mut m, "level", text_json(sarif_level_text(d.severity)));
    push_member(&mut m, "message", single_object("text", JsonValue::String(d.message.clone())));
    push_member(&mut m, "locations", JsonValue::Array(locations));
    proof {
        assert(m.deep_view() =~= seq![
            ("ruleId"@, JsonView::String(d.rule@)),
            ("level"@, JsonView::String(sarif_level(d.severity))),
            ("message"@, single("text"@, JsonView::String(d.message@))),
            ("locations"@, JsonView::Array(seq![location.deep_view()])),
        ]);
    }
    object(m)
}

/// The address of the schema of the SARIF reports.
pub open spec fn sarif_schema() -> Seq<char> {
    "https://raw.githubusercontent.com/oasis-tcs/sarif-spec/main/sarif-2.1/schema/sarif-schema-2.1.0.json"@
}

/// The built-in rules as SARIF describes them.
pub open spec fn sarif_rules() -> Seq<JsonView> {
    seq![
        sarif_rule(
            "naming-convention"@,
            "Model names should be PascalCase, field names should be snake_case"@,
            LintSeverity::Warning,
        ),
        sarif_rule(
            "model-size"@,
            "Models should not have too many fields"@,
            LintSeverity::Warning,
        ),
        sarif_rule(
            "similar-fields"@,
            "Detects fields with very similar names that may be confusing"@,
            LintSeverity::Info,
        ),
        sarif_rule(
            "relation-complexity"@,
            "Models should not have too many outgoing references"@,
            LintSeverity::Warning,
        ),
    ]
}

/// The report of the linter in the SARIF format, for the version `version`
/// of the tool.
pub open spec fn sarif(list: Seq<LintDiagnosticView>, version: Seq<char>) -> JsonView {
    JsonView::Object(
        seq![
            ("$schema"@, JsonView::String(sarif_schema())),
            ("version"@, JsonView::String("2.1.0"@)),
            (
                "runs"@,
                JsonView::Array(
                    seq![
                        JsonView::Object(
                            seq![
                                (
                                    "tool"@,
                                    single(
                                        "driver"@,
                                        JsonView::Object(
                                            seq![
                                                ("name"@, JsonView::String("m3l-lint"@)),
                                                ("version"@, JsonView::String(version)),
                                                ("rules"@, JsonView::Array(sarif_rules())),
                                            ],
                                        ),
                                    ),
                                ),
                                ("results"@, JsonView::Array(sarif_results(list))),
                            ],
                        ),
                    ],
                ),
            ),
        ],
    )
}

/// Builds the report of the linter in the SARIF format.
pub fn build_sarif(list: &Vec<LintDiagnostic>, version: &str) -> (r: JsonValue)
    ensures
        r.deep_view() == sarif(list.deep_view(), version@),
{
    let mut rules: Vec<JsonValue> = Vec::new();
    rules.push(
        make_sarif_rule(
            "naming-convention",
            "Model names should be PascalCase, field names should be snake_case",
            LintSeverity::Warning,
        ),
    );
    rules.push(
        make_sarif_rule(
            "model-size",
            "Models should not have too many fields",
            LintSeverity::Warning,
        ),
    );
    rules.push(
        make_sarif_rule(
            "similar-fields",
            "Detects fields with very similar names that may be confusing",
            LintSeverity::Info,
        ),
    );
    rules.push(
        make_sarif_rule(
            "relation-complexity",
            "Models should not have too many outgoing references",
            LintSeverity::Warning,
        ),
    );
    proof {
        lemma_json_array(rules);
        assert(rules.deep_view() =~= sarif_rules());
    }
    let mut results: Vec<JsonValue> = Vec::new();
    let mut i: usize = 0;
    while i < list.len()
        invariant
            i <= list@.len(),
            results@.len() == i,
            forall|j: int|
                0 <= j < i ==> results@[j].deep_view() == sarif_result(list@[j].deep_view()),
        decreases list.len() - i,
    {
        results.push(make_sarif_result(&list[i]));
        i += 1;
    }
    proof {
        lemma_json_array(results);
        assert(results.deep_view() =~= sarif_results(list.deep_view()));
    }
    let mut driver: Vec<JsonMember> = Vec::new();
    proof {
        assert(driver.deep_view() =~= Seq::empty());
    }
    push_member(&mut driver, "name", text_json("m3l-lint"));
    push_member(&mut driver, "version", text_json(version));
    push_member(&mut driver, "rules", JsonValue::Array(rules));
    proof {
        assert(driver.deep_view() =~= seq![
            ("name"@, JsonView::String("m3l-lint"@)),
            ("version"@, JsonView::String(version@)),
            ("rules"@, JsonView::Array(sarif_rules())),
        ]);
    }
    let mut run: Vec<JsonMember> = Vec::new();
    proof {
        assert(run.deep_view() =~= Seq::empty());
    }
    push_member(&mut run, "tool", single_object("driver", object(driver)));
    push_member(&mut run, "results", JsonValue::Array(results));
    proof {
        assert(run.deep_view() =~= seq![
            (
                "tool"@,
                single(
                    "driver"@,
                    JsonView::Object(
                        seq![
                            ("name"@, JsonView::String("m3l-lint"@)),
                            ("version"@, JsonView::String(version@)),
                            ("rules"@, JsonView::Array(sarif_rules())),
                        ],
                    ),
                ),
            ),
            ("results"@, JsonView::Array(sarif_results(list.deep_view()))),
        ]);
    }
    let the_run = object(run);
    let mut runs: Vec<JsonValue> = Vec::new();
    runs.push(the_run);
    proof {
        lemma_json_array(runs);
        assert(runs.deep_view() =~= seq![the_run.deep_view()]);
    }
    let mut m: Vec<JsonMember> = Vec::new();
    proof {
        assert(m.deep_view() =~= Seq::empty());
    }
    push_member(
        &mut m,
        "$schema",
        text_json(
            "https://raw.githubusercontent.com/oasis-tcs/sarif-spec/main/sarif-2.1/schema/sarif-schema-2.1.0.json",
        ),
    );
    push_member(&mut m, "version", text_json("2.1.0"));
    push_member(&mut m, "runs", JsonValue::Array(runs));
    proof {
        assert(m.deep_view() =~= seq![
            ("$schema"@, JsonView::String(sarif_schema())),
            ("version"@, JsonView::String("2.1.0"@)),
            ("runs"@, JsonView::Array(seq![the_run.deep_view()])),
        ]);
    }
    object(m)
}

} // verus!
