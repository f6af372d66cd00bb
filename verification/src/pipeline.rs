//! The whole way from source text to a resolved tree and its diagnostics.

use vstd::prelude::*;
use crate::lexer::lexed;
use crate::parser::{parse_string, parsed};
use crate::report::say;
use crate::resolver::{resolve, resolved};
use crate::text::from_chars;
use crate::types::{
    M3lAst, M3lFile, M3lFileView, ParsedFile, ParsedFileView, ProjectInfo, ValidateJsonOptions,
    ValidateOptions, ValidateResult,
};
use crate::validator::{validate, validated};

verus! {

/// What a source text holds when it is read under the name `file`.
pub open spec fn parsed_text(content: Seq<char>, file: Seq<char>) -> ParsedFileView {
    parsed(lexed(content), file)
}

/// What each of the files holds.
pub open spec fn parsed_files(files: Seq<M3lFileView>) -> Seq<ParsedFileView> {
    Seq::new(files.len(), |i: int| parsed_text(files[i].content, files[i].path))
}

/// Parses one source text and resolves it.
pub fn parse(content: &str, filename: &str) -> (ast: M3lAst)
    ensures
        ast.deep_view() == resolved(seq![parsed_text(content@, filename@)], None),
{
    let mut files: Vec<ParsedFile> = Vec::new();
    files.push(parse_string(content, filename));
    proof {
        assert(files.deep_view() =~= seq![parsed_text(content@, filename@)]);
    }
    resolve(files.as_slice(), None)
}

fn parse_all(files: &[M3lFile]) -> (r: Vec<ParsedFile>)
    ensures
        r.deep_view() == parsed_files(files.deep_view()),
{
    let mut out: Vec<ParsedFile> = Vec::new();
    let mut i: usize = 0;
    while i < files.len()
        invariant
            i <= files@.len(),
            out@.len() == i,
            forall|j: int| 0 <= j < i ==> out@[j].deep_view() == parsed_files(files.deep_view())[j],
        decreases files.len() - i,
    {
        proof {
            assert(files.deep_view()[i as int] == files@[i as int].deep_view());
        }
        out.push(parse_string(files[i].content.as_str(), files[i].path.as_str()));
        i += 1;
    }
    proof {
        assert(out.deep_view() =~= parsed_files(files.deep_view()));
    }
    out
}

/// Parses several source texts and resolves them into one tree.
pub fn parse_multi(files: &[M3lFile]) -> (ast: M3lAst)
    ensures
        ast.deep_view() == resolved(parsed_files(files.deep_view()), None),
{
    let parsed = parse_all(files);
    resolve(parsed.as_slice(), None)
}

/// The error for a place that holds no source file.
pub open spec fn no_files_error(input_path: Seq<char>) -> Seq<char> {
    "No M3L files (.m3l, .m3l.md, .md) found at: "@ + input_path
}

/// Builds the tree of the source files that were read at `input_path`, for
/// the project `project`. No files at all are an error.
pub fn build_ast(files: &[M3lFile], input_path: &str, project: Option<ProjectInfo>) -> (r: Result<
    M3lAst,
    String,
>)
    ensures
        match r {
            Ok(ast) => files@.len() > 0 && ast.deep_view() == resolved(
                parsed_files(files.deep_view()),
                project.deep_view(),
            ),
            Err(e) => files@.len() == 0 && e@ == no_files_error(input_path@),
        },
{
    if files.len() == 0 {
        let mut t: Vec<char> = Vec::new();
        say(&mut t, "No M3L files (.m3l, .m3l.md, .md) found at: ");
        say(&mut t, input_path);
        proof {
            assert(t@ =~= no_files_error(input_path@));
        }
        return Err(from_chars(&t));
    }
    let parsed = parse_all(files);
    Ok(resolve(parsed.as_slice(), project))
}

/// The name under which a text is validated: the one in the options, or
/// `input.m3l.md` where the options name none.
pub open spec fn report_name(filename: Seq<char>) -> Seq<char> {
    if filename.len() == 0 {
        "input.m3l.md"@
    } else {
        filename
    }
}

/// Parses, resolves and validates one source text.
pub fn validate_content(content: &str, options: &ValidateJsonOptions) -> (r: ValidateResult)
    ensures
        r.deep_view() == validated(
            resolved(seq![parsed_text(content@, report_name(options.filename@))], None),
            options.strict,
        ),
{
    let ast = if options.filename.as_str().unicode_len() == 0 {
        parse(content, "input.m3l.md")
    } else {
        parse(content, options.filename.as_str())
    };
    validate(&ast, &ValidateOptions { strict: options.strict })
}

} // verus!
