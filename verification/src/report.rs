//! Diagnostics: how errors and warnings are made, and the words that their
//! messages are put together from.

use vstd::prelude::*;
use crate::text::{decimal, decimal_chars, from_chars, push_all, to_chars};
use crate::types::{Diagnostic, DiagnosticSeverity, DiagnosticView, ModelType};

verus! {

/// An error with the code `code` at line `line` of `file`, column 1.
pub open spec fn error_view(
    code: Seq<char>,
    file: Seq<char>,
    line: usize,
    message: Seq<char>,
) -> DiagnosticView {
    DiagnosticView {
        code: code,
        severity: DiagnosticSeverity::Error,
        file: file,
        line: line,
        col: 1,
        message: message,
    }
}

/// A warning with the code `code` at line `line` of `file`, column 1.
pub open spec fn warning_view(
    code: Seq<char>,
    file: Seq<char>,
    line: usize,
    message: Seq<char>,
) -> DiagnosticView {
    DiagnosticView {
        code: code,
        severity: DiagnosticSeverity::Warning,
        file: file,
        line: line,
        col: 1,
        message: message,
    }
}

/// Makes an error.
pub fn error_at(code: &str, file: &str, line: usize, message: &Vec<char>) -> (r: Diagnostic)
    ensures
        r.deep_view() == error_view(code@, file@, line, message@),
{
    Diagnostic {
        code: String::from_str(code),
        severity: DiagnosticSeverity::Error,
        file: String::from_str(file),
        line,
        col: 1,
        message: from_chars(message),
    }
}

/// Makes a warning.
pub fn warning_at(code: &str, file: &str, line: usize, message: &Vec<char>) -> (r: Diagnostic)
    ensures
        r.deep_view() == warning_view(code@, file@, line, message@),
{
    Diagnostic {
        code: String::from_str(code),
        severity: DiagnosticSeverity::Warning,
        file: String::from_str(file),
        line,
        col: 1,
        message: from_chars(message),
    }
}

/// Appends a diagnostic to a list.
pub fn report(list: &mut Vec<Diagnostic>, d: Diagnostic)
    ensures
        final(list).deep_view() == old(list).deep_view().push(d.deep_view()),
{
    let ghost before = list.deep_view();
    list.push(d);
    proof {
        assert(list.deep_view() =~= before.push(d.deep_view()));
    }
}

/// Appends the characters of `s` to a message.
pub fn say(message: &mut Vec<char>, s: &str)
    ensures
        final(message)@ == old(message)@ + s@,
{
    push_all(message, &to_chars(s));
}

/// Appends the decimal digits of `n` to a message.
pub fn say_number(message: &mut Vec<char>, n: usize)
    ensures
        final(message)@ == old(message)@ + decimal(n as nat),
{
    push_all(message, &decimal_chars(n));
}

/// The word for a kind of element in a message.
pub open spec fn type_word(t: ModelType) -> Seq<char> {
    match t {
        ModelType::Model => "model"@,
        ModelType::View => "view"@,
        ModelType::Interface => "interface"@,
        ModelType::Enum => "enum"@,
    }
}

/// The word for a kind of element in a message.
pub fn model_type_word(t: ModelType) -> (r: &'static str)
    ensures
        r@ == type_word(t),
{
    match t {
        ModelType::Model => "model",
        ModelType::View => "view",
        ModelType::Interface => "interface",
        ModelType::Enum => "enum",
    }
}

} // verus!
