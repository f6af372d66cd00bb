//! The content of a field line: a name with an optional label, and after the
//! colon a type with its modifiers, a default value, attributes and a
//! description.

use vstd::prelude::*;
use crate::attrs::{
    args_at, directive_attrs, parse_attributes_balanced, read_args_at, skip_blanks, skip_word,
    skip_ws, word_end,
};
use crate::grammar::{
    RE_ENUM_VALUE, RE_FIELD_NAME, RE_FRAMEWORK_ATTR, RE_INLINE_COMMENT, RE_NESTED_KV,
    RE_TYPE_PART,
};
use crate::number::{is_number, is_number_text};
use crate::pattern::{
    all_groups, captures, captures_all, found, group, group_text, groups, regex_captures,
    regex_captures_all, regex_remove_all, regex_remove_first, remove_all, remove_first,
};
use crate::scan::{
    closing_from, find_balanced_paren, find_closing_backtick, find_closing_quote, paren_from,
};
use crate::text::{
    chars_eq, from_chars, opt_string, opt_text, split, split_char, split_trimmed, substring,
    texts, to_chars, trim, trim_chars, trimmed,
};
use crate::types::{
    NumberLit, ParamValue, ParamView, RawAttribute, RawAttributeView, TokenData, TokenDataView,
};

verus! {

/// The text, or the empty text where there is none.
pub open spec fn text_or_empty(o: Option<Seq<char>>) -> Seq<char> {
    match o {
        Some(t) => t,
        None => Seq::empty(),
    }
}

/// One parameter of a type: a number where it is written as one, else a string.
pub open spec fn param_of(piece: Seq<char>) -> ParamView {
    let t = trim(piece);
    if is_number(t) {
        ParamView::Number(t)
    } else {
        ParamView::String(t)
    }
}

/// The parameters of a type, separated by commas.
pub open spec fn params_of(s: Seq<char>) -> Seq<ParamView> {
    let p = split(s, ',');
    Seq::new(p.len(), |i: int| param_of(p[i]))
}

fn read_params(v: &Vec<char>) -> (r: Vec<ParamValue>)
    ensures
        r.deep_view() == params_of(v@),
{
    let pieces = split_char(v, ',');
    let mut out: Vec<ParamValue> = Vec::new();
    let mut i: usize = 0;
    while i < pieces.len()
        invariant
            i <= pieces@.len(),
            texts(pieces@) == split(v@, ','),
            out@.len() == i,
            forall|j: int| 0 <= j < i ==> out@[j].deep_view() == param_of(pieces@[j]@),
        decreases pieces.len() - i,
    {
        let t = trim_chars(&pieces[i]);
        if is_number_text(&t) {
            out.push(ParamValue::Number(NumberLit { text: from_chars(&t) }));
        } else {
            out.push(ParamValue::String(from_chars(&t)));
        }
        i += 1;
    }
    proof {
        assert(out.deep_view() =~= params_of(v@)) by {
            assert forall|j: int| 0 <= j < out@.len() implies out.deep_view()[j] == params_of(
                v@,
            )[j] by {
                assert(texts(pieces@)[j] == pieces@[j]@);
            }
        }
    }
    out
}

/// The data with the type written in `g`, the groups of the type pattern:
/// the name, the generic arguments, the parameters, and the flags that the
/// modifier slots `?`, `[]`, `?` stand for. With `[]`, the `?` before it
/// makes the items nullable and the `?` after it the field; without `[]`,
/// either `?` makes the field nullable.
pub open spec fn with_type(d: TokenDataView, g: Seq<Option<Seq<char>>>) -> TokenDataView {
    let array = group_text(g, 5) == Some("[]"@);
    let q4 = group_text(g, 4) == Some("?"@);
    let q6 = group_text(g, 6) == Some("?"@);
    TokenDataView {
        field_type: Some(text_or_empty(group_text(g, 1))),
        type_generic_params: match group_text(g, 2) {
            Some(t) => trimmed(split(t, ',')),
            None => d.type_generic_params,
        },
        type_params: match group_text(g, 3) {
            Some(t) => params_of(t),
            None => d.type_params,
        },
        array: array,
        nullable: if array {
            q6
        } else {
            q4 || q6
        },
        array_item_nullable: array && q4,
        ..d
    }
}

fn group_is(g: &Vec<Option<Vec<char>>>, i: usize, lit: &str) -> (r: bool)
    ensures
        r == (group_text(groups(g@), i as int) == Some(lit@)),
{
    match group(g, i) {
        Some(t) => chars_eq(&t, lit),
        None => false,
    }
}

/// Sets in `data` the type that the groups `g` of the type pattern hold.
pub fn set_type(data: &mut TokenData, g: &Vec<Option<Vec<char>>>)
    ensures
        final(data).deep_view() == with_type(old(data).deep_view(), groups(g@)),
{
    let name = match group(g, 1) {
        Some(t) => from_chars(&t),
        None => String::new(),
    };
    data.field_type = Some(name);
    match group(g, 2) {
        Some(t) => {
            data.type_generic_params = split_trimmed(&t, ',', true);
        },
        None => {},
    }
    match group(g, 3) {
        Some(t) => {
            data.type_params = read_params(&t);
        },
        None => {},
    }
    let array = group_is(g, 5, "[]");
    let q4 = group_is(g, 4, "?");
    let q6 = group_is(g, 6, "?");
    data.array = array;
    if array {
        data.nullable = q6;
        data.array_item_nullable = q4;
    } else {
        data.nullable = q4 || q6;
        data.array_item_nullable = false;
    }
}

/// Where a default value written without quotes ends: at a space, an `@`, a
/// quote or the end; parentheses are passed over as a whole.
pub open spec fn default_end(s: Seq<char>, pos: int) -> int
    decreases s.len() - pos,
{
    if pos < 0 || pos >= s.len() || s[pos] == ' ' || s[pos] == '@' || s[pos] == '"' || s[pos]
        == '`' {
        pos
    } else if s[pos] == '(' {
        match paren_from(s, pos, 0) {
            Some(c) => if pos <= c < s.len() {
                default_end(s, c + 1)
            } else {
                default_end(s, pos + 1)
            },
            None => default_end(s, pos + 1),
        }
    } else {
        default_end(s, pos + 1)
    }
}

fn find_default_end(v: &Vec<char>, pos: usize) -> (r: usize)
    requires
        pos <= v@.len(),
    ensures
        r == default_end(v@, pos as int),
        pos <= r <= v@.len(),
{
    let n = v.len();
    let mut i: usize = pos;
    while i < n && v[i] != ' ' && v[i] != '@' && v[i] != '"' && v[i] != '`'
        invariant
            pos <= i <= n == v@.len(),
            default_end(v@, i as int) == default_end(v@, pos as int),
        decreases n - i,
    {
        if v[i] == '(' {
            match find_balanced_paren(v, i) {
                Some(c) => {
                    i = c + 1;
                },
                None => {
                    i += 1;
                },
            }
        } else {
            i += 1;
        }
    }
    i
}

/// The default value written at `pos` and the position behind it and the
/// spaces after it: after `=`, a text in double or back quotes, kept with its
/// quotes, or a bare text. Without `=` there is none; a quote that nothing
/// closes gives none and stops at the quote.
pub open spec fn default_at(s: Seq<char>, pos: int) -> (Option<Seq<char>>, int) {
    if 0 <= pos < s.len() && s[pos] == '=' {
        let p = skip_blanks(s, pos + 1);
        if 0 <= p < s.len() && (s[p] == '"' || s[p] == '`') {
            match closing_from(s, s[p], p + 1) {
                Some(c) => if p < c < s.len() {
                    (Some(s.subrange(p, c + 1)), skip_blanks(s, c + 1))
                } else {
                    (None, p)
                },
                None => (None, p),
            }
        } else {
            let e = default_end(s, p);
            if 0 <= p <= e <= s.len() {
                (Some(s.subrange(p, e)), skip_blanks(s, e))
            } else {
                (None, p)
            }
        }
    } else {
        (None, pos)
    }
}

fn read_default(v: &Vec<char>, pos: usize) -> (r: (Option<String>, usize))
    requires
        pos <= v@.len(),
    ensures
        (r.0.deep_view(), r.1 as int) == default_at(v@, pos as int),
        pos <= r.1 <= v@.len(),
{
    let n = v.len();
    if pos < n && v[pos] == '=' {
        let p = skip_ws(v, pos + 1);
        if p < n && v[p] == '"' {
            match find_closing_quote(v, p) {
                Some(c) => (Some(substring(v, p, c + 1)), skip_ws(v, c + 1)),
                None => (None, p),
            }
        } else if p < n && v[p] == '`' {
            match find_closing_backtick(v, p) {
                Some(c) => (Some(substring(v, p, c + 1)), skip_ws(v, c + 1)),
                None => (None, p),
            }
        } else {
            let e = find_default_end(v, p);
            (Some(substring(v, p, e)), skip_ws(v, e))
        }
    } else {
        (None, pos)
    }
}

/// The attributes with the cascade mark `symbol` on the last of them.
pub open spec fn mark_last(acc: Seq<RawAttributeView>, symbol: Seq<char>) -> Seq<
    RawAttributeView,
> {
    if acc.len() > 0 {
        acc.update(acc.len() - 1, RawAttributeView { cascade: Some(symbol), ..acc.last() })
    } else {
        acc
    }
}

/// The attributes written from `pos` on, after those in `acc`, and the
/// position behind them. Each `@` opens an attribute; a `!`, `!!` or `?`
/// that stands alone marks the attribute before it.
pub open spec fn field_attrs_from(s: Seq<char>, pos: int, acc: Seq<RawAttributeView>) -> (
    Seq<RawAttributeView>,
    int,
)
    decreases s.len() - pos,
{
    if pos < 0 || pos >= s.len() || !(s[pos] == '@' || s[pos] == '!' || s[pos] == '?') {
        (acc, pos)
    } else if s[pos] == '@' {
        let e = word_end(s, pos + 1);
        let (args, after) = args_at(s, e);
        let next = skip_blanks(s, after);
        if pos < next <= s.len() && pos < e <= s.len() {
            field_attrs_from(
                s,
                next,
                acc.push(
                    RawAttributeView { name: s.subrange(pos + 1, e), args: args, cascade: None },
                ),
            )
        } else {
            (acc, pos)
        }
    } else {
        let double = s[pos] == '!' && pos + 1 < s.len() && s[pos + 1] == '!';
        let symbol = if double {
            seq!['!', '!']
        } else {
            seq![s[pos]]
        };
        let after = if double {
            pos + 2
        } else {
            pos + 1
        };
        let next = skip_blanks(s, after);
        if pos < next <= s.len() {
            field_attrs_from(s, next, mark_last(acc, symbol))
        } else {
            (acc, pos)
        }
    }
}

fn read_field_attrs(v: &Vec<char>, pos: usize) -> (r: (Vec<RawAttribute>, usize))
    requires
        pos <= v@.len(),
    ensures
        (r.0.deep_view(), r.1 as int) == field_attrs_from(v@, pos as int, Seq::empty()),
        pos <= r.1 <= v@.len(),
{
    let n = v.len();
    let mut out: Vec<RawAttribute> = Vec::new();
    let mut i: usize = pos;
    proof {
        assert(out.deep_view() =~= Seq::empty());
    }
    while i < n && (v[i] == '@' || v[i] == '!' || v[i] == '?')
        invariant
            pos <= i <= n == v@.len(),
            field_attrs_from(v@, i as int, out.deep_view()) == field_attrs_from(
                v@,
                pos as int,
                Seq::empty(),
            ),
        decreases n - i,
    {
        let ghost before = out.deep_view();
        if v[i] == '@' {
            let e = skip_word(v, i + 1);
            let name = substring(v, i + 1, e);
            let (args, after) = read_args_at(v, e);
            out.push(RawAttribute { name, args, cascade: None });
            proof {
                assert(out.deep_view() =~= before.push(out@.last().deep_view()));
            }
            i = skip_ws(v, after);
        } else {
            let double = v[i] == '!' && i + 1 < n && v[i + 1] == '!';
            let mut symbol: Vec<char> = Vec::new();
            symbol.push(v[i]);
            let after = if double {
                symbol.push('!');
                i + 2
            } else {
                i + 1
            };
            let k = out.len();
            if k > 0 {
                out[k - 1].cascade = Some(from_chars(&symbol));
            }
            proof {
                assert(symbol@ =~= if double {
                    seq!['!', '!']
                } else {
                    seq![v@[i as int]]
                });
                assert(out.deep_view() =~= mark_last(before, symbol@));
            }
            i = skip_ws(v, after);
        }
    }
    (out, i)
}

/// The description in double quotes at `pos`, where one stands there and is closed.
pub open spec fn trailing_description(s: Seq<char>, pos: int) -> Option<Seq<char>> {
    if 0 <= pos < s.len() && s[pos] == '"' {
        match closing_from(s, '"', pos + 1) {
            Some(c) => if pos < c < s.len() {
                Some(s.subrange(pos + 1, c))
            } else {
                None
            },
            None => None,
        }
    } else {
        None
    }
}

/// The data with what `rest` writes from `pos` on: a default value, then
/// attributes, then a description. What is not written stays as `d` has it.
pub open spec fn after_type(rest: Seq<char>, d: TokenDataView, pos: int) -> TokenDataView {
    let (value, p1) = default_at(rest, pos);
    let (attrs, p2) = field_attrs_from(rest, p1, Seq::empty());
    let desc = trailing_description(rest, skip_blanks(rest, p2));
    TokenDataView {
        default_value: match value {
            Some(x) => Some(x),
            None => d.default_value,
        },
        attributes: if attrs.len() > 0 {
            attrs
        } else {
            d.attributes
        },
        description: match desc {
            Some(x) => Some(x),
            None => d.description,
        },
        ..d
    }
}

/// Whether `rest` is one double-quoted text and nothing else.
pub open spec fn whole_quoted(rest: Seq<char>) -> bool {
    rest.len() > 0 && rest[0] == '"' && closing_from(rest, '"', 1) == Some(rest.len() - 1)
}

/// Where the type ends in `rest`: behind the whole match, and not behind the text.
pub open spec fn type_end(rest: Seq<char>, g: Seq<Option<Seq<char>>>) -> int {
    let n = text_or_empty(group_text(g, 0)).len();
    if n <= rest.len() {
        n as int
    } else {
        rest.len() as int
    }
}

/// What the rest of a field line, behind the colon, says; `caps` is what the
/// type pattern finds in `rest`. A rest that is one quoted text is a
/// description. Else the type comes first, where the pattern finds one, then
/// a default value, attributes and a description.
pub open spec fn type_and_attrs(
    rest: Seq<char>,
    d: TokenDataView,
    caps: Option<Seq<Option<Seq<char>>>>,
) -> TokenDataView {
    if whole_quoted(rest) {
        TokenDataView { description: Some(rest.subrange(1, rest.len() - 1)), ..d }
    } else {
        match caps {
            Some(g) => after_type(rest, with_type(d, g), skip_blanks(rest, type_end(rest, g))),
            None => after_type(rest, d, 0),
        }
    }
}

/// Reads default value, attributes and description out of `rest` from `pos`
/// on into `data`.
pub fn apply_after_type(rest: &Vec<char>, data: &mut TokenData, pos: usize)
    requires
        pos <= rest@.len(),
    ensures
        final(data).deep_view() == after_type(rest@, old(data).deep_view(), pos as int),
{
    let n = rest.len();
    let (value, p1) = read_default(rest, pos);
    let (attrs, p2) = read_field_attrs(rest, p1);
    let p3 = skip_ws(rest, p2);
    let mut desc: Option<String> = None;
    if p3 < n && rest[p3] == '"' {
        match find_closing_quote(rest, p3) {
            Some(c) => {
                desc = Some(substring(rest, p3 + 1, c));
            },
            None => {},
        }
    }
    assert(desc.deep_view() == trailing_description(rest@, p3 as int));
    match value {
        Some(x) => {
            data.default_value = Some(x);
        },
        None => {},
    }
    if attrs.len() > 0 {
        data.attributes = attrs;
    }
    match desc {
        Some(x) => {
            data.description = Some(x);
        },
        None => {},
    }
}

/// Whether `rest` is one double-quoted text.
fn is_whole_quoted(rest: &Vec<char>) -> (r: bool)
    ensures
        r == whole_quoted(rest@),
{
    let n = rest.len();
    if n > 0 && rest[0] == '"' {
        match find_closing_quote(rest, 0) {
            Some(c) => c == n - 1,
            None => false,
        }
    } else {
        false
    }
}

/// Reads type, default value, attributes and description out of `rest` into
/// `data`, given what the type pattern found in `rest`.
pub fn apply_type_and_attrs(
    rest: &Vec<char>,
    data: &mut TokenData,
    caps: &Option<Vec<Option<Vec<char>>>>,
)
    ensures
        final(data).deep_view() == type_and_attrs(rest@, old(data).deep_view(), found(*caps)),
{
    let n = rest.len();
    if is_whole_quoted(rest) {
        data.description = Some(substring(rest, 1, n - 1));
        return ;
    }
    match caps {
        Some(g) => {
            set_type(data, g);
            let len0 = match group(g, 0) {
                Some(t) => t.len(),
                None => 0,
            };
            let end = if len0 <= n {
                len0
            } else {
                n
            };
            let pos = skip_ws(rest, end);
            apply_after_type(rest, data, pos);
        },
        None => {
            apply_after_type(rest, data, 0);
        },
    }
}

/// Reads type, default value, attributes and description from the rest of a
/// field line into `data`.
pub fn parse_type_and_attrs(rest: &str, data: &mut TokenData)
    ensures
        final(data).deep_view() == type_and_attrs(
            rest@,
            old(data).deep_view(),
            regex_captures(RE_TYPE_PART@, rest@),
        ),
{
    let v = to_chars(rest);
    let caps = captures(RE_TYPE_PART, &v);
    apply_type_and_attrs(&v, data, &caps);
}

/// The framework attributes that the matches `all` of the framework pattern
/// hold: the content of each between brackets.
pub open spec fn framework_texts(all: Seq<Seq<Option<Seq<char>>>>) -> Seq<Seq<char>> {
    Seq::new(all.len(), |i: int| seq!['['] + text_or_empty(group_text(all[i], 1)) + seq![']'])
}

/// The framework attributes of the matches `all`.
pub fn framework_attr_texts(all: &Vec<Vec<Option<Vec<char>>>>) -> (r: Vec<String>)
    ensures
        r.deep_view() == framework_texts(all_groups(all@)),
{
    let mut out: Vec<String> = Vec::new();
    let mut i: usize = 0;
    while i < all.len()
        invariant
            i <= all@.len(),
            out@.len() == i,
            forall|j: int|
                0 <= j < i ==> out@[j]@ == seq!['['] + text_or_empty(
                    group_text(groups(all@[j]@), 1),
                ) + seq![']'],
        decreases all.len() - i,
    {
        let mut t: Vec<char> = Vec::new();
        t.push('[');
        match group(&all[i], 1) {
            Some(inner) => {
                crate::text::push_all(&mut t, &inner);
            },
            None => {},
        }
        t.push(']');
        proof {
            assert(t@ =~= seq!['['] + text_or_empty(group_text(groups(all@[i as int]@), 1))
                + seq![']']);
        }
        out.push(from_chars(&t));
        i += 1;
    }
    proof {
        assert(out.deep_view() =~= framework_texts(all_groups(all@)));
    }
    out
}

/// The text of group `i`, or the empty text.
pub fn group_or_empty(g: &Vec<Option<Vec<char>>>, i: usize) -> (r: String)
    ensures
        r@ == text_or_empty(group_text(groups(g@), i as int)),
{
    match group(g, i) {
        Some(t) => from_chars(&t),
        None => String::new(),
    }
}

/// The data of a line that names something, and the rest that is still to be
/// read as type and attributes. `enum_caps` is what the enum-value pattern
/// finds in `content`, `field_caps` what the field pattern finds. An enum
/// value has a name, a label and a description; a field has a name, a label
/// and a rest; a line that is neither is a name as a whole.
pub open spec fn named_field(
    base: TokenDataView,
    content: Seq<char>,
    enum_caps: Option<Seq<Option<Seq<char>>>>,
    field_caps: Option<Seq<Option<Seq<char>>>>,
) -> (TokenDataView, Option<Seq<char>>) {
    match enum_caps {
        Some(g) => (
            TokenDataView {
                name: Some(text_or_empty(group_text(g, 1))),
                label: group_text(g, 2),
                description: Some(text_or_empty(group_text(g, 3))),
                ..base
            },
            None,
        ),
        None => match field_caps {
            None => (TokenDataView { name: Some(content), ..base }, None),
            Some(g) => {
                let d = TokenDataView {
                    name: Some(text_or_empty(group_text(g, 1))),
                    label: group_text(g, 2),
                    ..base
                };
                match group_text(g, 3) {
                    None => (d, None),
                    Some(m) => if trim(m).len() == 0 {
                        (d, None)
                    } else {
                        (d, Some(trim(m)))
                    },
                }
            },
        },
    }
}

/// Sets name, label and description in `data` from what the two patterns
/// found in `content`, and gives the rest of a field line.
pub fn apply_named_field(
    data: &mut TokenData,
    content: &Vec<char>,
    enum_caps: &Option<Vec<Option<Vec<char>>>>,
    field_caps: &Option<Vec<Option<Vec<char>>>>,
) -> (rest: Option<Vec<char>>)
    ensures
        (final(data).deep_view(), opt_text(rest)) == named_field(
            old(data).deep_view(),
            content@,
            found(*enum_caps),
            found(*field_caps),
        ),
{
    match enum_caps {
        Some(g) => {
            data.name = Some(group_or_empty(g, 1));
            data.label = opt_string(&group(g, 2));
            data.description = Some(group_or_empty(g, 3));
            None
        },
        None => match field_caps {
            None => {
                data.name = Some(from_chars(content));
                None
            },
            Some(g) => {
                data.name = Some(group_or_empty(g, 1));
                data.label = opt_string(&group(g, 2));
                match group(g, 3) {
                    None => None,
                    Some(m) => {
                        let t = trim_chars(&m);
                        if t.len() == 0 {
                            None
                        } else {
                            Some(t)
                        }
                    },
                }
            },
        },
    }
}

/// What the content of a list item says. A line that starts with `@` is a
/// directive and holds attributes only. Else a trailing comment is taken off,
/// then the framework attributes; what is left is an enum value with its
/// description, or a field: a name, a label, and type and attributes.
pub open spec fn field_line(content: Seq<char>) -> TokenDataView {
    if content.len() > 0 && content[0] == '@' {
        TokenDataView {
            is_directive: true,
            attributes: directive_attrs(content),
            ..TokenData::empty_view()
        }
    } else {
        let comment = regex_captures(RE_INLINE_COMMENT@, content);
        let c1 = if comment is Some {
            regex_remove_first(RE_INLINE_COMMENT@, content)
        } else {
            content
        };
        let fw = regex_captures_all(RE_FRAMEWORK_ATTR@, c1);
        let c2 = if fw.len() > 0 {
            trim(regex_remove_all(RE_FRAMEWORK_ATTR@, c1))
        } else {
            c1
        };
        let base = TokenDataView {
            comment: match comment {
                Some(g) => Some(text_or_empty(group_text(g, 1))),
                None => None,
            },
            framework_attrs: framework_texts(fw),
            ..TokenData::empty_view()
        };
        let (d, rest) = named_field(
            base,
            c2,
            regex_captures(RE_ENUM_VALUE@, c2),
            regex_captures(RE_FIELD_NAME@, c2),
        );
        match rest {
            Some(r) => type_and_attrs(r, d, regex_captures(RE_TYPE_PART@, r)),
            None => d,
        }
    }
}

/// Reads the content of a list item.
pub fn parse_field_line(content: &Vec<char>) -> (r: TokenData)
    ensures
        r.deep_view() == field_line(content@),
{
    let mut data = TokenData::default();
    if content.len() > 0 && content[0] == '@' {
        data.is_directive = true;
        data.attributes = parse_attributes_balanced(content);
        return data;
    }
    let comment = captures(RE_INLINE_COMMENT, content);
    let c1 = match &comment {
        Some(g) => {
            data.comment = Some(group_or_empty(g, 1));
            remove_first(RE_INLINE_COMMENT, content)
        },
        None => crate::text::slice(content, 0, content.len()),
    };
    proof {
        assert(content@.subrange(0, content@.len() as int) =~= content@);
    }
    let fw = captures_all(RE_FRAMEWORK_ATTR, &c1);
    data.framework_attrs = framework_attr_texts(&fw);
    let c2 = if fw.len() > 0 {
        trim_chars(&remove_all(RE_FRAMEWORK_ATTR, &c1))
    } else {
        c1
    };
    let enum_caps = captures(RE_ENUM_VALUE, &c2);
    let field_caps = if enum_caps.is_none() {
        captures(RE_FIELD_NAME, &c2)
    } else {
        None
    };
    proof {
        assert(named_field(data.deep_view(), c2@, found(enum_caps), found(field_caps))
            == named_field(
            data.deep_view(),
            c2@,
            regex_captures(RE_ENUM_VALUE@, c2@),
            regex_captures(RE_FIELD_NAME@, c2@),
        ));
    }
    let rest = apply_named_field(&mut data, &c2, &enum_caps, &field_caps);
    match rest {
        Some(r) => {
            let caps = captures(RE_TYPE_PART, &r);
            apply_type_and_attrs(&r, &mut data, &caps);
        },
        None => {},
    }
    data
}

/// The data of a nested item, from what the key-value pattern found in it
/// (`kv`) and from its reading as a field line (`f`). The name is that of
/// the field line. An item that is no `key: value` takes the type and what
/// belongs to it from the field line, where that found a type.
pub open spec fn nested_from(kv: Option<Seq<Option<Seq<char>>>>, f: TokenDataView) -> TokenDataView {
    match kv {
        Some(g) => TokenDataView {
            key: Some(text_or_empty(group_text(g, 1))),
            value: Some(trim(text_or_empty(group_text(g, 2)))),
            name: f.name,
            ..TokenData::empty_view()
        },
        None => if f.field_type is Some {
            TokenDataView {
                name: f.name,
                field_type: f.field_type,
                type_params: f.type_params,
                type_generic_params: f.type_generic_params,
                nullable: f.nullable,
                array: f.array,
                array_item_nullable: f.array_item_nullable,
                default_value: f.default_value,
                attributes: f.attributes,
                description: f.description,
                framework_attrs: f.framework_attrs,
                label: f.label,
                comment: f.comment,
                ..TokenData::empty_view()
            }
        } else {
            TokenDataView { name: f.name, ..TokenData::empty_view() }
        },
    }
}

/// Builds the data of a nested item from what the key-value pattern found
/// and from the item read as a field line.
pub fn make_nested_item(kv: &Option<Vec<Option<Vec<char>>>>, f: TokenData) -> (r: TokenData)
    ensures
        r.deep_view() == nested_from(found(*kv), f.deep_view()),
{
    let mut data = TokenData::default();
    match kv {
        Some(g) => {
            data.key = Some(group_or_empty(g, 1));
            let v = match group(g, 2) {
                Some(t) => trim_chars(&t),
                None => {
                    proof {
                        assert(trim(Seq::<char>::empty()) =~= Seq::<char>::empty());
                    }
                    Vec::new()
                },
            };
            data.value = Some(from_chars(&v));
            data.name = f.name;
        },
        None => {
            if f.field_type.is_some() {
                data.name = f.name;
                data.field_type = f.field_type;
                data.type_params = f.type_params;
                data.type_generic_params = f.type_generic_params;
                data.nullable = f.nullable;
                data.array = f.array;
                data.array_item_nullable = f.array_item_nullable;
                data.default_value = f.default_value;
                data.attributes = f.attributes;
                data.description = f.description;
                data.framework_attrs = f.framework_attrs;
                data.label = f.label;
                data.comment = f.comment;
            } else {
                data.name = f.name;
            }
        },
    }
    data
}

/// What the content of a nested list item says.
pub open spec fn nested_item(content: Seq<char>) -> TokenDataView {
    nested_from(regex_captures(RE_NESTED_KV@, content), field_line(content))
}

/// Reads the content of a nested list item.
pub fn parse_nested_item(content: &Vec<char>) -> (r: TokenData)
    ensures
        r.deep_view() == nested_item(content@),
{
    let kv = captures(RE_NESTED_KV, content);
    let f = parse_field_line(content);
    make_nested_item(&kv, f)
}

} // verus!
