//! The lexer: one token for each line of the source, in order. A line that no
//! rule knows becomes a `Text` token, so lexing never fails. Fenced code
//! blocks and indented block quotes make no token of their own: they are
//! attached to a token before them.

use vstd::prelude::*;
use crate::attrs::{attr_args, read_attr_args};
use crate::catalogs::{is_kind_section, kind_section_names};
use crate::field_line::{
    field_line, group_or_empty, nested_item, parse_field_line, parse_nested_item, text_or_empty,
};
use crate::grammar::{
    RE_BLANK, RE_BLOCKQUOTE, RE_H1, RE_H2, RE_H2_DESC, RE_H2_INHERIT, RE_H3, RE_HR, RE_IMPORT,
    RE_LIST_ITEM, RE_MODEL_ATTR, RE_MODEL_DEF, RE_NAMESPACE, RE_NAME_LABEL, RE_TYPE_INDICATOR,
};
use crate::pattern::{
    all_groups, captures, captures_all, found, group, group_text, groups, regex_captures,
    regex_captures_all,
};
use crate::text::{
    chars_eq, contains_sub, from_chars, has_prefix, has_sub, join, leading_space,
    lemma_trim_start_is, opt_text, push_all, skip_space, slice, split, split_char, split_trimmed,
    starts_with, texts, to_chars, trim, trim_chars, trim_start, trim_start_chars, trimmed_nonempty,
};
use crate::types::{
    AttrArgValue, CodeBlock, CodeBlockView, RawAttribute, RawAttributeView, Token, TokenData,
    TokenDataView, TokenType, TokenView,
};

verus! {

/// A name and its label: `name(label)` is split, anything else is a name.
/// `caps` is what the name-and-label pattern finds in `s`.
pub open spec fn name_label(s: Seq<char>, caps: Option<Seq<Option<Seq<char>>>>) -> (
    Seq<char>,
    Option<Seq<char>>,
) {
    match caps {
        Some(g) => (text_or_empty(group_text(g, 1)), Some(text_or_empty(group_text(g, 2)))),
        None => (s, None),
    }
}

/// Splits `name(label)`, given what the name-and-label pattern found in `s`.
pub fn split_name_label(s: &Vec<char>, caps: &Option<Vec<Option<Vec<char>>>>) -> (r: (
    String,
    Option<String>,
))
    ensures
        (r.0@, r.1.deep_view()) == name_label(s@, found(*caps)),
{
    match caps {
        Some(g) => (group_or_empty(g, 1), Some(group_or_empty(g, 2))),
        None => (from_chars(s), None),
    }
}

/// Splits `name(label)` into name and label.
pub fn parse_name_label(s: &str) -> (r: (String, Option<String>))
    ensures
        (r.0@, r.1.deep_view()) == name_label(s@, regex_captures(RE_NAME_LABEL@, s@)),
{
    let v = to_chars(s);
    let caps = captures(RE_NAME_LABEL, &v);
    split_name_label(&v, &caps)
}

/// The kind of element that a type indicator stands for.
pub open spec fn heading_kind(indicator: Seq<char>) -> TokenType {
    if indicator == "attribute"@ {
        TokenType::AttributeDef
    } else if indicator == "enum"@ {
        TokenType::Enum
    } else if indicator == "interface"@ {
        TokenType::Interface
    } else if indicator == "view"@ {
        TokenType::View
    } else {
        TokenType::Model
    }
}

/// A heading with a type indicator, from what the patterns found: `g` the
/// heading as a whole, `label_caps` the label in its name, `inherit_caps` and
/// `desc_caps` the parents and the description in `rest`, the text behind
/// the indicator. A view says whether `rest` marks it as materialized.
pub open spec fn typed_heading(
    g: Seq<Option<Seq<char>>>,
    label_caps: Option<Seq<Option<Seq<char>>>>,
    inherit_caps: Option<Seq<Option<Seq<char>>>>,
    desc_caps: Option<Seq<Option<Seq<char>>>>,
    rest: Seq<char>,
) -> (TokenType, TokenDataView) {
    let (name, label) = name_label(text_or_empty(group_text(g, 1)), label_caps);
    let indicator = text_or_empty(group_text(g, 2));
    (
        heading_kind(indicator),
        TokenDataView {
            name: Some(name),
            label: label,
            inherits: match inherit_caps {
                Some(h) => trimmed_nonempty(split(text_or_empty(group_text(h, 1)), ',')),
                None => Seq::empty(),
            },
            materialized: if indicator == "view"@ {
                Some(contains_sub(rest, "@materialized"@))
            } else {
                None
            },
            description: match desc_caps {
                Some(h) => Some(text_or_empty(group_text(h, 1))),
                None => None,
            },
            ..TokenData::empty_view()
        },
    )
}

/// Builds the token type and data of a heading with a type indicator.
pub fn make_typed_heading(
    g: &Vec<Option<Vec<char>>>,
    label_caps: &Option<Vec<Option<Vec<char>>>>,
    inherit_caps: &Option<Vec<Option<Vec<char>>>>,
    desc_caps: &Option<Vec<Option<Vec<char>>>>,
    rest: &Vec<char>,
) -> (r: (TokenType, TokenData))
    ensures
        (r.0, r.1.deep_view()) == typed_heading(
            groups(g@),
            found(*label_caps),
            found(*inherit_caps),
            found(*desc_caps),
            rest@,
        ),
{
    let namepart = match group(g, 1) {
        Some(t) => t,
        None => Vec::new(),
    };
    let (name, label) = split_name_label(&namepart, label_caps);
    let indicator = match group(g, 2) {
        Some(t) => t,
        None => Vec::new(),
    };
    let mut data = TokenData::default();
    data.name = Some(name);
    data.label = label;
    match inherit_caps {
        Some(h) => {
            let list = match group(h, 1) {
                Some(t) => t,
                None => Vec::new(),
            };
            data.inherits = split_trimmed(&list, ',', false);
        },
        None => {},
    }
    let is_view = chars_eq(&indicator, "view");
    if is_view {
        data.materialized = Some(has_sub(rest, "@materialized"));
    }
    match desc_caps {
        Some(h) => {
            data.description = Some(group_or_empty(h, 1));
        },
        None => {},
    }
    let tt = if chars_eq(&indicator, "attribute") {
        TokenType::AttributeDef
    } else if chars_eq(&indicator, "enum") {
        TokenType::Enum
    } else if chars_eq(&indicator, "interface") {
        TokenType::Interface
    } else if is_view {
        TokenType::View
    } else {
        TokenType::Model
    };
    (tt, data)
}

/// The attributes of a model heading, one for each match of the attribute
/// pattern: its name, and its arguments where it has any.
pub open spec fn model_attrs(all: Seq<Seq<Option<Seq<char>>>>) -> Seq<RawAttributeView> {
    Seq::new(
        all.len(),
        |i: int|
            RawAttributeView {
                name: text_or_empty(group_text(all[i], 1)),
                args: match group_text(all[i], 2) {
                    Some(a) => attr_args(a),
                    None => Seq::empty(),
                },
                cascade: None,
            },
    )
}

fn read_model_attrs(all: &Vec<Vec<Option<Vec<char>>>>) -> (r: Vec<RawAttribute>)
    ensures
        r.deep_view() == model_attrs(all_groups(all@)),
{
    let mut out: Vec<RawAttribute> = Vec::new();
    let mut i: usize = 0;
    while i < all.len()
        invariant
            i <= all@.len(),
            out@.len() == i,
            forall|j: int| 0 <= j < i ==> out@[j].deep_view() == model_attrs(all_groups(all@))[j],
        decreases all.len() - i,
    {
        let name = group_or_empty(&all[i], 1);
        let args = match group(&all[i], 2) {
            Some(a) => read_attr_args(&a),
            None => {
                let e: Vec<AttrArgValue> = Vec::new();
                proof {
                    assert(e.deep_view() =~= Seq::empty());
                }
                e
            },
        };
        out.push(RawAttribute { name, args, cascade: None });
        i += 1;
    }
    proof {
        assert(out.deep_view() =~= model_attrs(all_groups(all@)));
    }
    out
}

/// A model heading, from what the patterns found: `g` the heading as a whole,
/// `label_caps` the label in its name, `attr_matches` the attributes behind it.
pub open spec fn model_heading(
    g: Seq<Option<Seq<char>>>,
    label_caps: Option<Seq<Option<Seq<char>>>>,
    attr_matches: Seq<Seq<Option<Seq<char>>>>,
) -> TokenDataView {
    let (name, label) = name_label(text_or_empty(group_text(g, 1)), label_caps);
    TokenDataView {
        name: Some(name),
        label: label,
        inherits: match group_text(g, 2) {
            Some(s) => trimmed_nonempty(split(trim(s), ',')),
            None => Seq::empty(),
        },
        attributes: match group_text(g, 3) {
            Some(_a) => model_attrs(attr_matches),
            None => Seq::empty(),
        },
        ..TokenData::empty_view()
    }
}

/// Builds the data of a model heading.
pub fn make_model_heading(
    g: &Vec<Option<Vec<char>>>,
    label_caps: &Option<Vec<Option<Vec<char>>>>,
    attr_matches: &Vec<Vec<Option<Vec<char>>>>,
) -> (r: TokenData)
    ensures
        r.deep_view() == model_heading(groups(g@), found(*label_caps), all_groups(attr_matches@)),
{
    let namepart = match group(g, 1) {
        Some(t) => t,
        None => Vec::new(),
    };
    let (name, label) = split_name_label(&namepart, label_caps);
    let mut data = TokenData::default();
    data.name = Some(name);
    data.label = label;
    match group(g, 2) {
        Some(s) => {
            data.inherits = split_trimmed(&trim_chars(&s), ',', false);
        },
        None => {},
    }
    match group(g, 3) {
        Some(_a) => {
            data.attributes = read_model_attrs(attr_matches);
        },
        None => {},
    }
    data
}

/// What a level-two heading with the text `content` starts: an enum, an
/// interface, a view or an attribute definition where a type indicator says
/// so, else a model.
pub open spec fn h2_data(content: Seq<char>) -> (TokenType, TokenDataView) {
    match regex_captures(RE_TYPE_INDICATOR@, content) {
        Some(g) => {
            let rest = trim(text_or_empty(group_text(g, 3)));
            typed_heading(
                g,
                regex_captures(RE_NAME_LABEL@, text_or_empty(group_text(g, 1))),
                regex_captures(RE_H2_INHERIT@, rest),
                regex_captures(RE_H2_DESC@, rest),
                rest,
            )
        },
        None => match regex_captures(RE_MODEL_DEF@, content) {
            Some(g) => (
                TokenType::Model,
                model_heading(
                    g,
                    regex_captures(RE_NAME_LABEL@, text_or_empty(group_text(g, 1))),
                    regex_captures_all(RE_MODEL_ATTR@, trim(text_or_empty(group_text(g, 3)))),
                ),
            ),
            None => (
                TokenType::Model,
                TokenDataView { name: Some(content), ..TokenData::empty_view() },
            ),
        },
    }
}

/// Reads a level-two heading.
pub fn tokenize_h2(content: &Vec<char>) -> (r: (TokenType, TokenData))
    ensures
        (r.0, r.1.deep_view()) == h2_data(content@),
{
    match captures(RE_TYPE_INDICATOR, content) {
        Some(g) => {
            let namepart = match group(&g, 1) {
                Some(t) => t,
                None => Vec::new(),
            };
            let rest = match group(&g, 3) {
                Some(t) => trim_chars(&t),
                None => trim_chars(&Vec::new()),
            };
            let label_caps = captures(RE_NAME_LABEL, &namepart);
            let inherit_caps = captures(RE_H2_INHERIT, &rest);
            let desc_caps = captures(RE_H2_DESC, &rest);
            make_typed_heading(&g, &label_caps, &inherit_caps, &desc_caps, &rest)
        },
        None => match captures(RE_MODEL_DEF, content) {
            Some(g) => {
                let namepart = match group(&g, 1) {
                    Some(t) => t,
                    None => Vec::new(),
                };
                let attrs_text = match group(&g, 3) {
                    Some(t) => trim_chars(&t),
                    None => trim_chars(&Vec::new()),
                };
                let label_caps = captures(RE_NAME_LABEL, &namepart);
                let attr_matches = captures_all(RE_MODEL_ATTR, &attrs_text);
                (TokenType::Model, make_model_heading(&g, &label_caps, &attr_matches))
            },
            None => {
                let mut data = TokenData::default();
                data.name = Some(from_chars(content));
                (TokenType::Model, data)
            },
        },
    }
}

/// The namespace that a line declares: the line is a level-one heading whose
/// text is `Namespace:` and a name.
pub open spec fn namespace_of(raw: Seq<char>) -> Option<Seq<char>> {
    match regex_captures(RE_H1@, raw) {
        Some(g) => match regex_captures(RE_NAMESPACE@, trim(text_or_empty(group_text(g, 1)))) {
            Some(h) => Some(trim(text_or_empty(group_text(h, 1)))),
            None => None,
        },
        None => None,
    }
}

fn parse_namespace(raw: &Vec<char>) -> (r: Option<Vec<char>>)
    ensures
        opt_text(r) == namespace_of(raw@),
{
    match captures(RE_H1, raw) {
        Some(g) => {
            let content = match group(&g, 1) {
                Some(t) => trim_chars(&t),
                None => trim_chars(&Vec::new()),
            };
            match captures(RE_NAMESPACE, &content) {
                Some(h) => {
                    let name = match group(&h, 1) {
                        Some(t) => trim_chars(&t),
                        None => trim_chars(&Vec::new()),
                    };
                    Some(name)
                },
                None => None,
            }
        },
        None => None,
    }
}

/// Whether a line is blank.
pub open spec fn is_blank(raw: Seq<char>) -> bool {
    regex_captures(RE_BLANK@, raw) is Some
}

/// Whether a line is a horizontal rule.
pub open spec fn is_rule(raw: Seq<char>) -> bool {
    regex_captures(RE_HR@, trim(raw)) is Some
}

/// Whether none of the rules for blank lines, rules, headings and namespaces
/// takes the line.
pub open spec fn is_body_line(raw: Seq<char>) -> bool {
    !is_blank(raw) && !is_rule(raw) && regex_captures(RE_H3@, raw) is None && regex_captures(
        RE_H2@,
        raw,
    ) is None && namespace_of(raw) is None
}

/// The text of an indented block quote: a body line that is a block quote
/// with two or more characters of indentation. Such a line makes no token.
pub open spec fn attached_quote(raw: Seq<char>) -> Option<Seq<char>> {
    if is_body_line(raw) {
        match regex_captures(RE_BLOCKQUOTE@, raw) {
            Some(g) => if text_or_empty(group_text(g, 1)).len() >= 2 {
                Some(trim(text_or_empty(group_text(g, 2))))
            } else {
                None
            },
            None => None,
        }
    } else {
        None
    }
}

/// What a body line is: a block quote, a list item (a field, or a nested
/// item where it is indented by two or more), an import, or text.
pub open spec fn body_line(raw: Seq<char>) -> (TokenType, nat, TokenDataView) {
    match regex_captures(RE_BLOCKQUOTE@, raw) {
        Some(g) => (
            TokenType::Blockquote,
            0,
            TokenDataView {
                name: Some(trim(text_or_empty(group_text(g, 2)))),
                ..TokenData::empty_view()
            },
        ),
        None => match regex_captures(RE_LIST_ITEM@, raw) {
            Some(g) => {
                let indent = text_or_empty(group_text(g, 1)).len();
                let item = text_or_empty(group_text(g, 2));
                if indent >= 2 {
                    (TokenType::NestedItem, indent, nested_item(item))
                } else {
                    (TokenType::Field, 0, field_line(item))
                }
            },
            None => match regex_captures(RE_IMPORT@, trim(raw)) {
                Some(g) => (
                    TokenType::Text,
                    0,
                    TokenDataView {
                        is_import: true,
                        import_path: Some(text_or_empty(group_text(g, 1))),
                        name: Some(trim(raw)),
                        ..TokenData::empty_view()
                    },
                ),
                None => (
                    TokenType::Text,
                    0,
                    TokenDataView { name: Some(trim(raw)), ..TokenData::empty_view() },
                ),
            },
        },
    }
}

/// The type, the indentation and the data of the token that a line makes.
/// The first rule that fits decides: blank line, horizontal rule, section
/// heading, element heading, namespace, and then the rules for body lines.
/// A level-one heading that declares no namespace is a body line.
pub open spec fn line_data(raw: Seq<char>) -> (TokenType, nat, TokenDataView) {
    if is_blank(raw) {
        (TokenType::Blank, 0, TokenData::empty_view())
    } else if is_rule(raw) {
        (TokenType::HorizontalRule, 0, TokenData::empty_view())
    } else {
        match regex_captures(RE_H3@, raw) {
            Some(g) => {
                let name = trim(text_or_empty(group_text(g, 1)));
                (
                    TokenType::Section,
                    0,
                    TokenDataView {
                        name: Some(name),
                        kind_section: kind_section_names().contains(name),
                        ..TokenData::empty_view()
                    },
                )
            },
            None => match regex_captures(RE_H2@, raw) {
                Some(g) => {
                    let h = h2_data(trim(text_or_empty(group_text(g, 1))));
                    (h.0, 0, h.1)
                },
                None => match namespace_of(raw) {
                    Some(ns) => (
                        TokenType::Namespace,
                        0,
                        TokenDataView {
                            name: Some(ns),
                            is_directive: true,
                            ..TokenData::empty_view()
                        },
                    ),
                    None => body_line(raw),
                },
            },
        }
    }
}

/// The token that line number `line` with the text `raw` makes.
pub open spec fn line_token(raw: Seq<char>, line: nat) -> TokenView {
    let d = line_data(raw);
    TokenView { token_type: d.0, raw: raw, line: line as usize, indent: d.1 as usize, data: d.2 }
}

/// What a line is: the text of an indented block quote, or else a token's
/// type, indentation and data.
pub enum LineItem {
    Quote(Vec<char>),
    Token(TokenType, usize, TokenData),
}

fn trimmed_group(g: &Vec<Option<Vec<char>>>, i: usize) -> (r: Vec<char>)
    ensures
        r@ == trim(text_or_empty(group_text(groups(g@), i as int))),
{
    match group(g, i) {
        Some(t) => trim_chars(&t),
        None => trim_chars(&Vec::new()),
    }
}

fn group_len(g: &Vec<Option<Vec<char>>>, i: usize) -> (r: usize)
    ensures
        r == text_or_empty(group_text(groups(g@), i as int)).len(),
{
    match group(g, i) {
        Some(t) => t.len(),
        None => 0,
    }
}

fn classify_body(raw: &Vec<char>) -> (r: LineItem)
    requires
        is_body_line(raw@),
    ensures
        match r {
            LineItem::Quote(t) => attached_quote(raw@) == Some(t@),
            LineItem::Token(tt, indent, data) => attached_quote(raw@) is None && (
                tt,
                indent as nat,
                data.deep_view(),
            ) == body_line(raw@),
        },
{
    match captures(RE_BLOCKQUOTE, raw) {
        Some(g) => {
            let text = trimmed_group(&g, 2);
            if group_len(&g, 1) >= 2 {
                return LineItem::Quote(text);
            }
            let mut data = TokenData::default();
            data.name = Some(from_chars(&text));
            return LineItem::Token(TokenType::Blockquote, 0, data);
        },
        None => {},
    }
    match captures(RE_LIST_ITEM, raw) {
        Some(g) => {
            let indent = group_len(&g, 1);
            let item = match group(&g, 2) {
                Some(t) => t,
                None => Vec::new(),
            };
            if indent >= 2 {
                return LineItem::Token(TokenType::NestedItem, indent, parse_nested_item(&item));
            }
            return LineItem::Token(TokenType::Field, 0, parse_field_line(&item));
        },
        None => {},
    }
    let trimmed = trim_chars(raw);
    let mut data = TokenData::default();
    match captures(RE_IMPORT, &trimmed) {
        Some(g) => {
            data.is_import = true;
            data.import_path = Some(group_or_empty(&g, 1));
        },
        None => {},
    }
    data.name = Some(from_chars(&trimmed));
    LineItem::Token(TokenType::Text, 0, data)
}

/// Classifies one line.
pub fn classify_line(raw: &Vec<char>) -> (r: LineItem)
    ensures
        match r {
            LineItem::Quote(t) => attached_quote(raw@) == Some(t@),
            LineItem::Token(tt, indent, data) => attached_quote(raw@) is None && (
                tt,
                indent as nat,
                data.deep_view(),
            ) == line_data(raw@),
        },
{
    if captures(RE_BLANK, raw).is_some() {
        return LineItem::Token(TokenType::Blank, 0, TokenData::default());
    }
    if captures(RE_HR, &trim_chars(raw)).is_some() {
        return LineItem::Token(TokenType::HorizontalRule, 0, TokenData::default());
    }
    match captures(RE_H3, raw) {
        Some(g) => {
            let name = from_chars(&trimmed_group(&g, 1));
            let mut data = TokenData::default();
            data.kind_section = is_kind_section(name.as_str());
            data.name = Some(name);
            return LineItem::Token(TokenType::Section, 0, data);
        },
        None => {},
    }
    match captures(RE_H2, raw) {
        Some(g) => {
            let (tt, data) = tokenize_h2(&trimmed_group(&g, 1));
            return LineItem::Token(tt, 0, data);
        },
        None => {},
    }
    match parse_namespace(raw) {
        Some(ns) => {
            let mut data = TokenData::default();
            data.name = Some(from_chars(&ns));
            data.is_directive = true;
            return LineItem::Token(TokenType::Namespace, 0, data);
        },
        None => {},
    }
    classify_body(raw)
}

/// A line without the carriage return at its end.
pub open spec fn strip_cr(line: Seq<char>) -> Seq<char> {
    if line.len() > 0 && line.last() == '\r' {
        line.drop_last()
    } else {
        line
    }
}

fn strip_line(line: &Vec<char>) -> (r: Vec<char>)
    ensures
        r@ == strip_cr(line@),
{
    let n = line.len();
    proof {
        assert(line@.subrange(0, n as int) =~= line@);
        if n > 0 {
            assert(line@.subrange(0, n - 1) =~= line@.drop_last());
        }
    }
    if n > 0 && line[n - 1] == '\r' {
        slice(line, 0, n - 1)
    } else {
        slice(line, 0, n)
    }
}

/// The mark that opens and closes a code block.
pub open spec fn fence() -> Seq<char> {
    "```"@
}

/// Whether a line opens or closes a code block: three back quotes after its indentation.
pub open spec fn is_fence(raw: Seq<char>) -> bool {
    starts_with(trim_start(raw), fence())
}

fn is_fence_line(raw: &Vec<char>) -> (r: bool)
    ensures
        r == is_fence(raw@),
{
    has_prefix(&trim_start_chars(raw), "```")
}

/// The first line from `i` on that is a fence; the number of lines where none is.
pub open spec fn fence_close(lines: Seq<Seq<char>>, i: int) -> int
    decreases lines.len() - i,
{
    if i < 0 || i >= lines.len() {
        lines.len() as int
    } else if is_fence(strip_cr(lines[i])) {
        i
    } else {
        fence_close(lines, i + 1)
    }
}

fn find_fence_close(lines: &Vec<Vec<char>>, from: usize) -> (r: usize)
    requires
        from <= lines@.len(),
    ensures
        r == fence_close(texts(lines@), from as int),
        from <= r <= lines@.len(),
{
    let mut i: usize = from;
    while i < lines.len()
        invariant
            from <= i <= lines@.len(),
            fence_close(texts(lines@), i as int) == fence_close(texts(lines@), from as int),
        decreases lines.len() - i,
    {
        let raw = strip_line(&lines[i]);
        proof {
            assert(texts(lines@)[i as int] == lines@[i as int]@);
        }
        if is_fence_line(&raw) {
            return i;
        }
        i += 1;
    }
    i
}

/// A line of a code block without the indentation of the block: `indent`
/// characters less where it is longer than that, else its text from the first
/// character that is no white space.
pub open spec fn code_line(l: Seq<char>, indent: nat) -> Seq<char> {
    if l.len() > indent {
        l.subrange(indent as int, l.len() as int)
    } else {
        trim_start(l)
    }
}

/// The lines `from..to`, each as a line of a code block.
pub open spec fn code_lines(lines: Seq<Seq<char>>, from: int, to: int, indent: nat) -> Seq<
    Seq<char>,
> {
    Seq::new((to - from) as nat, |k: int| code_line(strip_cr(lines[from + k]), indent))
}

fn join_code(lines: &Vec<Vec<char>>, from: usize, to: usize, indent: usize) -> (r: Vec<char>)
    requires
        from <= to <= lines@.len(),
    ensures
        r@ == join(code_lines(texts(lines@), from as int, to as int, indent as nat), seq!['\n']),
{
    let mut out: Vec<char> = Vec::new();
    let mut k: usize = from;
    let ghost all = texts(lines@);
    proof {
        assert(code_lines(all, from as int, from as int, indent as nat) =~= Seq::empty());
    }
    while k < to
        invariant
            from <= k <= to <= lines@.len(),
            all == texts(lines@),
            out@ == join(code_lines(all, from as int, k as int, indent as nat), seq!['\n']),
        decreases to - k,
    {
        let raw = strip_line(&lines[k]);
        let piece = if raw.len() > indent {
            slice(&raw, indent, raw.len())
        } else {
            trim_start_chars(&raw)
        };
        let ghost before = code_lines(all, from as int, k as int, indent as nat);
        let ghost after = code_lines(all, from as int, k + 1, indent as nat);
        proof {
            assert(all[k as int] == lines@[k as int]@);
            assert(after.drop_last() =~= before);
            assert(after.last() == piece@);
        }
        if k > from {
            out.push('\n');
            push_all(&mut out, &piece);
            proof {
                assert(out@ =~= join(before, seq!['\n']) + seq!['\n'] + piece@);
            }
        } else {
            push_all(&mut out, &piece);
            proof {
                assert(out@ =~= piece@);
                assert(after.len() == 1);
            }
        }
        k += 1;
    }
    out
}

/// The language named behind the opening fence, if any.
pub open spec fn fence_language(raw: Seq<char>) -> Option<Seq<char>> {
    let t = trim_start(raw);
    let hint = trim(t.subrange(fence().len() as int, t.len() as int));
    if hint.len() == 0 {
        None
    } else {
        Some(hint)
    }
}

/// The code block that opens at line `i` and closes before line `end`: the
/// lines between, without the indentation of the opening fence, joined by
/// line feeds and trimmed.
pub open spec fn code_block(lines: Seq<Seq<char>>, i: int, end: int) -> CodeBlockView {
    let raw = strip_cr(lines[i]);
    CodeBlockView {
        language: fence_language(raw),
        content: trim(join(code_lines(lines, i + 1, end, leading_space(raw)), seq!['\n'])),
    }
}

fn read_code_block(lines: &Vec<Vec<char>>, i: usize, end: usize) -> (r: CodeBlock)
    requires
        i < end <= lines@.len(),
        is_fence(strip_cr(lines@[i as int]@)),
    ensures
        r.deep_view() == code_block(texts(lines@), i as int, end as int),
{
    let raw = strip_line(&lines[i]);
    let t = trim_start_chars(&raw);
    let mark = to_chars("```");
    proof {
        assert(texts(lines@)[i as int] == lines@[i as int]@);
    }
    let hint = crate::text::trim_range(&t, mark.len(), t.len());
    let language = if hint.len() == 0 {
        None
    } else {
        Some(from_chars(&hint))
    };
    let space = skip_space(&raw, 0, raw.len());
    proof {
        lemma_trim_start_is(raw@, space as int);
    }
    let body = join_code(lines, i + 1, end, space);
    let content = from_chars(&trim_chars(&body));
    CodeBlock { language, content }
}

/// The token that a code block is attached to: the nearest before position
/// `j` that is a field or a section, with nothing but blank lines between.
pub open spec fn code_target(tokens: Seq<TokenView>, j: int) -> Option<int>
    decreases j,
{
    if j <= 0 || j > tokens.len() {
        None
    } else {
        let tt = tokens[j - 1].token_type;
        if tt == TokenType::Field || tt == TokenType::Section {
            Some(j - 1)
        } else if tt != TokenType::Blank {
            None
        } else {
            code_target(tokens, j - 1)
        }
    }
}

/// The token that an indented block quote is attached to: the nearest field
/// before position `j`, with nothing but blank lines and block quotes between.
pub open spec fn quote_target(tokens: Seq<TokenView>, j: int) -> Option<int>
    decreases j,
{
    if j <= 0 || j > tokens.len() {
        None
    } else {
        let tt = tokens[j - 1].token_type;
        if tt == TokenType::Field {
            Some(j - 1)
        } else if tt != TokenType::Blank && tt != TokenType::Blockquote {
            None
        } else {
            quote_target(tokens, j - 1)
        }
    }
}

fn find_target(tokens: &Vec<Token>, for_code: bool) -> (r: Option<usize>)
    ensures
        crate::scan::position(r) == if for_code {
            code_target(tokens.deep_view(), tokens@.len() as int)
        } else {
            quote_target(tokens.deep_view(), tokens@.len() as int)
        },
        r matches Some(j) ==> j < tokens@.len(),
{
    let mut j: usize = tokens.len();
    let ghost all = tokens.deep_view();
    while j > 0
        invariant
            j <= tokens@.len(),
            all == tokens.deep_view(),
            for_code ==> code_target(all, j as int) == code_target(all, tokens@.len() as int),
            !for_code ==> quote_target(all, j as int) == quote_target(
                all,
                tokens@.len() as int,
            ),
        decreases j,
    {
        let tt = tokens[j - 1].token_type;
        proof {
            assert(all[j - 1].token_type == tt);
        }
        if for_code {
            if tt == TokenType::Field || tt == TokenType::Section {
                return Some(j - 1);
            }
            if tt != TokenType::Blank {
                return None;
            }
        } else {
            if tt == TokenType::Field {
                return Some(j - 1);
            }
            if tt != TokenType::Blank && tt != TokenType::Blockquote {
                return None;
            }
        }
        j -= 1;
    }
    None
}

/// The tokens with `block` attached to the token that takes it, if one does.
pub open spec fn attach_code(tokens: Seq<TokenView>, block: CodeBlockView) -> Seq<TokenView> {
    match code_target(tokens, tokens.len() as int) {
        Some(j) => tokens.update(
            j,
            TokenView {
                data: TokenDataView { code_block: Some(block), ..tokens[j].data },
                ..tokens[j]
            },
        ),
        None => tokens,
    }
}

/// The tokens with the quoted `text` added to the description of the field
/// that takes it, on a line of its own where the field has one already.
pub open spec fn attach_quote(tokens: Seq<TokenView>, text: Seq<char>) -> Seq<TokenView> {
    match quote_target(tokens, tokens.len() as int) {
        Some(j) => tokens.update(
            j,
            TokenView {
                data: TokenDataView {
                    blockquote_desc: Some(quoted_more(tokens[j].data.blockquote_desc, text)),
                    ..tokens[j].data
                },
                ..tokens[j]
            },
        ),
        None => tokens,
    }
}

/// The tokens of the lines from `i` on, after the tokens `acc` of the lines
/// before. A fence opens a code block that runs to the next fence or to the
/// end; an indented block quote is attached; every other line makes a token.
pub open spec fn lex_from(lines: Seq<Seq<char>>, i: int, acc: Seq<TokenView>) -> Seq<TokenView>
    decreases lines.len() - i,
{
    if i < 0 || i >= lines.len() {
        acc
    } else {
        let raw = strip_cr(lines[i]);
        if is_fence(raw) {
            let end = fence_close(lines, i + 1);
            if i < end < lines.len() {
                lex_from(lines, end + 1, attach_code(acc, code_block(lines, i, end)))
            } else {
                attach_code(acc, code_block(lines, i, lines.len() as int))
            }
        } else {
            match attached_quote(raw) {
                Some(text) => lex_from(lines, i + 1, attach_quote(acc, text)),
                None => lex_from(lines, i + 1, acc.push(line_token(raw, (i + 1) as nat))),
            }
        }
    }
}

/// The tokens of a source text.
pub open spec fn lexed(content: Seq<char>) -> Seq<TokenView> {
    lex_from(split(content, '\n'), 0, Seq::empty())
}

/// Whether the tokens stand in the order of their lines, each on a line of
/// its own among the first `count` lines, with the text of that line as its
/// raw text. Lines count from 1.
pub open spec fn in_line_order(tokens: Seq<TokenView>, lines: Seq<Seq<char>>, count: int) -> bool {
    &&& forall|k: int|
        0 <= k < tokens.len() ==> 1 <= (#[trigger] tokens[k]).line as int <= count
            && tokens[k].raw == strip_cr(lines[tokens[k].line as int - 1])
    &&& forall|k: int, m: int|
        0 <= k < m < tokens.len() ==> (#[trigger] tokens[k]).line < (#[trigger] tokens[m]).line
}

fn attach_code_block(tokens: &mut Vec<Token>, block: CodeBlock)
    ensures
        final(tokens).deep_view() == attach_code(old(tokens).deep_view(), block.deep_view()),
        final(tokens)@.len() == old(tokens)@.len(),
        forall|k: int|
            0 <= k < old(tokens)@.len() ==> (#[trigger] final(tokens)@[k]).line == old(
                tokens,
            )@[k].line && final(tokens)@[k].raw@ == old(tokens)@[k].raw@,
{
    let ghost before = tokens.deep_view();
    match find_target(tokens, true) {
        Some(j) => {
            tokens[j].data.code_block = Some(block);
            proof {
                assert(tokens.deep_view() =~= attach_code(before, block.deep_view()));
            }
        },
        None => {},
    }
}

/// The description of a field with one more quoted line.
pub open spec fn quoted_more(prev: Option<Seq<char>>, text: Seq<char>) -> Seq<char> {
    match prev {
        Some(p) => p + seq!['\n'] + text,
        None => text,
    }
}

fn add_quoted(prev: &Option<String>, text: &Vec<char>) -> (r: String)
    ensures
        r@ == quoted_more(prev.deep_view(), text@),
{
    let mut joined: Vec<char> = Vec::new();
    match prev {
        Some(p) => {
            joined = to_chars(p.as_str());
            joined.push('\n');
        },
        None => {},
    }
    push_all(&mut joined, text);
    proof {
        assert(joined@ =~= quoted_more(prev.deep_view(), text@));
    }
    from_chars(&joined)
}

fn attach_block_quote(tokens: &mut Vec<Token>, text: &Vec<char>)
    ensures
        final(tokens).deep_view() == attach_quote(old(tokens).deep_view(), text@),
        final(tokens)@.len() == old(tokens)@.len(),
        forall|k: int|
            0 <= k < old(tokens)@.len() ==> (#[trigger] final(tokens)@[k]).line == old(
                tokens,
            )@[k].line && final(tokens)@[k].raw@ == old(tokens)@[k].raw@,
{
    let ghost before = tokens.deep_view();
    match find_target(tokens, false) {
        Some(j) => {
            let desc = add_quoted(&tokens[j].data.blockquote_desc, text);
            assert(desc@ == quoted_more(before[j as int].data.blockquote_desc, text@));
            tokens[j].data.blockquote_desc = Some(desc);
            proof {
                assert(tokens.deep_view() =~= attach_quote(before, text@));
            }
        },
        None => {},
    }
}

/// Splits a source text into tokens, one for each line that makes one, in
/// the order of the lines. The file's name takes no part.
pub fn lex(content: &str, _file: &str) -> (tokens: Vec<Token>)
    ensures
        tokens.deep_view() == lexed(content@),
        in_line_order(
            tokens.deep_view(),
            split(content@, '\n'),
            split(content@, '\n').len() as int,
        ),
{
    let lines = split_char(&to_chars(content), '\n');
    let total = lines.len();
    let mut tokens: Vec<Token> = Vec::new();
    let mut i: usize = 0;
    let ghost all = texts(lines@);
    proof {
        assert(tokens.deep_view() =~= Seq::empty());
    }
    while i < total
        invariant
            i <= total == lines@.len(),
            all == texts(lines@),
            all == split(content@, '\n'),
            lex_from(all, i as int, tokens.deep_view()) == lexed(content@),
            in_line_order(tokens.deep_view(), all, i as int),
        decreases total - i,
    {
        let raw = strip_line(&lines[i]);
        let ghost before = tokens.deep_view();
        proof {
            assert(all[i as int] == lines@[i as int]@);
        }
        if is_fence_line(&raw) {
            let end = find_fence_close(&lines, i + 1);
            let block = read_code_block(&lines, i, end);
            attach_code_block(&mut tokens, block);
            proof {
                let after = tokens.deep_view();
                assert forall|k: int| 0 <= k < after.len() implies after[k].line
                    == before[k].line && after[k].raw == before[k].raw by {
                    assert(tokens@[k].line == after[k].line);
                }
            }
            i = if end < total {
                end + 1
            } else {
                total
            };
        } else {
            match classify_line(&raw) {
                LineItem::Quote(text) => {
                    attach_block_quote(&mut tokens, &text);
                    proof {
                        let after = tokens.deep_view();
                        assert forall|k: int| 0 <= k < after.len() implies after[k].line
                            == before[k].line && after[k].raw == before[k].raw by {
                            assert(tokens@[k].line == after[k].line);
                        }
                    }
                },
                LineItem::Token(token_type, indent, data) => {
                    tokens.push(
                        Token { token_type, raw: from_chars(&raw), line: i + 1, indent, data },
                    );
                    proof {
                        assert(tokens.deep_view() =~= before.push(
                            line_token(raw@, (i + 1) as nat),
                        ));
                    }
                },
            }
            i += 1;
        }
    }
    tokens
}

} // verus!
