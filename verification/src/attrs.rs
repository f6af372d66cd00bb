//! Attributes as they are written: `@name`, optionally with arguments in
//! parentheses. Arguments are split at the commas that stand outside quotes
//! and parentheses, and each is read as a string, a number or a boolean.

use vstd::prelude::*;
use crate::number::{is_number, is_number_text};
use crate::scan::{
    closing_from, find_balanced_paren, find_closing_backtick, find_closing_quote, paren_from,
};
use crate::text::{
    chars_eq, find_char, find_from, from_chars, is_word, is_word_char, push_all, slice, strip_chars,
    substring, to_chars, trim, trim_of, trim_range,
};
use crate::types::{AttrArgValue, AttrArgView, NumberLit, RawAttribute, RawAttributeView};

verus! {

/// The first position at or after `pos` that holds neither a space nor a comma.
pub open spec fn skip_separators(s: Seq<char>, pos: int) -> int
    decreases s.len() - pos,
{
    if 0 <= pos < s.len() && (s[pos] == ' ' || s[pos] == ',') {
        skip_separators(s, pos + 1)
    } else {
        pos
    }
}

/// The first position at or after `pos` that holds no space.
pub open spec fn skip_blanks(s: Seq<char>, pos: int) -> int
    decreases s.len() - pos,
{
    if 0 <= pos < s.len() && s[pos] == ' ' {
        skip_blanks(s, pos + 1)
    } else {
        pos
    }
}

pub proof fn lemma_skip_blanks(s: Seq<char>, pos: int)
    requires
        0 <= pos <= s.len(),
    ensures
        pos <= skip_blanks(s, pos) <= s.len(),
    decreases s.len() - pos,
{
    if pos < s.len() && s[pos] == ' ' {
        lemma_skip_blanks(s, pos + 1);
    }
}

/// The first position at or after `pos` that holds no space.
pub fn skip_ws(v: &Vec<char>, pos: usize) -> (r: usize)
    requires
        pos <= v@.len(),
    ensures
        r == skip_blanks(v@, pos as int),
        pos <= r <= v@.len(),
{
    let mut i: usize = pos;
    while i < v.len() && v[i] == ' '
        invariant
            pos <= i <= v@.len(),
            skip_blanks(v@, i as int) == skip_blanks(v@, pos as int),
        decreases v.len() - i,
    {
        i += 1;
    }
    i
}

/// Where an argument written without quotes ends: at the next comma outside
/// parentheses, or at the end.
pub open spec fn bare_end(s: Seq<char>, pos: int) -> int
    decreases s.len() - pos,
{
    if pos < 0 || pos >= s.len() || s[pos] == ',' {
        pos
    } else if s[pos] == '(' {
        match paren_from(s, pos, 0) {
            Some(c) => if pos <= c < s.len() {
                bare_end(s, c + 1)
            } else {
                bare_end(s, pos + 1)
            },
            None => bare_end(s, pos + 1),
        }
    } else {
        bare_end(s, pos + 1)
    }
}

pub proof fn lemma_bare_end(s: Seq<char>, pos: int)
    requires
        0 <= pos <= s.len(),
    ensures
        pos <= bare_end(s, pos) <= s.len(),
        pos < s.len() && s[pos] != ',' ==> pos < bare_end(s, pos),
    decreases s.len() - pos,
{
    if pos < s.len() && s[pos] != ',' {
        if s[pos] == '(' {
            match paren_from(s, pos, 0) {
                Some(c) => {
                    if pos <= c < s.len() {
                        lemma_bare_end(s, c + 1);
                    } else {
                        lemma_bare_end(s, pos + 1);
                    }
                },
                None => {
                    lemma_bare_end(s, pos + 1);
                },
            }
        } else {
            lemma_bare_end(s, pos + 1);
        }
    }
}

fn find_bare_end(v: &Vec<char>, pos: usize) -> (r: usize)
    requires
        pos <= v@.len(),
    ensures
        r == bare_end(v@, pos as int),
        pos <= r <= v@.len(),
{
    let n = v.len();
    let mut i: usize = pos;
    while i < n && v[i] != ','
        invariant
            pos <= i <= n == v@.len(),
            bare_end(v@, i as int) == bare_end(v@, pos as int),
        decreases n - i,
    {
        if v[i] == '(' {
            match find_balanced_paren(v, i) {
                Some(c) => {
                    i = c + 1;
                },
                None => {
                    i += 1;
                },
            }
        } else {
            i += 1;
        }
    }
    i
}

/// The value of an argument written without quotes; `token` is trimmed and
/// not empty. `key: value` is kept as one string, with one space after the
/// colon and the double quotes around the value removed.
pub open spec fn bare_arg(token: Seq<char>) -> AttrArgView {
    let colon = find_from(token, ':', 0);
    if colon < token.len() {
        let key = trim(token.subrange(0, colon));
        let value = trim_of(trim(token.subrange(colon + 1, token.len() as int)), seq!['"']);
        AttrArgView::String(key + seq![':', ' '] + value)
    } else if token == "true"@ {
        AttrArgView::Bool(true)
    } else if token == "false"@ {
        AttrArgView::Bool(false)
    } else if is_number(token) {
        AttrArgView::Number(token)
    } else {
        AttrArgView::String(token)
    }
}

/// Reads an argument written without quotes.
pub fn read_bare_arg(token: &Vec<char>) -> (r: AttrArgValue)
    ensures
        r.deep_view() == bare_arg(token@),
{
    let n = token.len();
    let colon = find_char(token, ':', 0);
    if colon < n {
        let mut text = trim_range(token, 0, colon);
        let rest = trim_range(token, colon + 1, n);
        let value = strip_chars(&rest, "\"", true, true);
        proof {
            reveal_strlit("\"");
            assert("\""@ =~= seq!['"']);
        }
        text.push(':');
        text.push(' ');
        push_all(&mut text, &value);
        proof {
            assert(text@ =~= trim(token@.subrange(0, colon as int)) + seq![':', ' '] + value@);
        }
        AttrArgValue::String(from_chars(&text))
    } else if chars_eq(token, "true") {
        AttrArgValue::Bool(true)
    } else if chars_eq(token, "false") {
        AttrArgValue::Bool(false)
    } else if is_number_text(token) {
        AttrArgValue::Number(NumberLit { text: from_chars(token) })
    } else {
        AttrArgValue::String(from_chars(token))
    }
}

/// The arguments written in `s` from `pos` on, after those in `acc`.
pub open spec fn args_from(s: Seq<char>, pos: int, acc: Seq<AttrArgView>) -> Seq<AttrArgView>
    decreases s.len() - pos,
{
    let p = skip_separators(s, pos);
    if p < pos || p < 0 || p >= s.len() {
        acc
    } else if s[p] == '"' {
        match closing_from(s, '"', p + 1) {
            Some(c) => if p < c < s.len() {
                args_from(s, c + 1, acc.push(AttrArgView::String(s.subrange(p + 1, c))))
            } else {
                args_from(s, p + 1, acc)
            },
            None => args_from(s, p + 1, acc),
        }
    } else if s[p] == '`' {
        match closing_from(s, '`', p + 1) {
            Some(c) => if p < c < s.len() {
                args_from(s, c + 1, acc.push(AttrArgView::String(s.subrange(p, c + 1))))
            } else {
                args_from(s, p + 1, acc)
            },
            None => args_from(s, p + 1, acc),
        }
    } else if s[p] == '\'' {
        let c = find_from(s, '\'', p + 1);
        if p < c < s.len() {
            args_from(s, c + 1, acc.push(AttrArgView::String(s.subrange(p + 1, c))))
        } else {
            args_from(s, p + 1, acc)
        }
    } else {
        let e = bare_end(s, p);
        if p < e <= s.len() {
            let token = trim(s.subrange(p, e));
            if token.len() > 0 {
                args_from(s, e, acc.push(bare_arg(token)))
            } else {
                args_from(s, e, acc)
            }
        } else {
            acc
        }
    }
}

/// The arguments that `s` writes: strings in double, single or back quotes
/// (the back quotes are kept), and unquoted values.
pub open spec fn attr_args(s: Seq<char>) -> Seq<AttrArgView> {
    args_from(s, 0, Seq::empty())
}

fn skip_seps(v: &Vec<char>, pos: usize) -> (r: usize)
    requires
        pos <= v@.len(),
    ensures
        r == skip_separators(v@, pos as int),
        pos <= r <= v@.len(),
        r < v@.len() ==> v@[r as int] != ' ' && v@[r as int] != ',',
{
    let mut i: usize = pos;
    while i < v.len() && (v[i] == ' ' || v[i] == ',')
        invariant
            pos <= i <= v@.len(),
            skip_separators(v@, i as int) == skip_separators(v@, pos as int),
        decreases v.len() - i,
    {
        i += 1;
    }
    i
}

/// Reads the arguments written in `v`.
pub fn read_attr_args(v: &Vec<char>) -> (r: Vec<AttrArgValue>)
    ensures
        r.deep_view() == attr_args(v@),
{
    let n = v.len();
    let mut out: Vec<AttrArgValue> = Vec::new();
    let mut pos: usize = 0;
    proof {
        assert(out.deep_view() =~= Seq::empty());
    }
    while pos < n
        invariant
            pos <= n == v@.len(),
            args_from(v@, pos as int, out.deep_view()) == attr_args(v@),
        decreases n - pos,
    {
        let p = skip_seps(v, pos);
        if p >= n {
            return out;
        }
        let ghost before = out.deep_view();
        let c = v[p];
        if c == '"' {
            match find_closing_quote(v, p) {
                Some(close) => {
                    out.push(AttrArgValue::String(substring(v, p + 1, close)));
                    pos = close + 1;
                },
                None => {
                    pos = p + 1;
                },
            }
        } else if c == '`' {
            match find_closing_backtick(v, p) {
                Some(close) => {
                    out.push(AttrArgValue::String(substring(v, p, close + 1)));
                    pos = close + 1;
                },
                None => {
                    pos = p + 1;
                },
            }
        } else if c == '\'' {
            let close = find_char(v, '\'', p + 1);
            if close < n {
                out.push(AttrArgValue::String(substring(v, p + 1, close)));
                pos = close + 1;
            } else {
                pos = p + 1;
            }
        } else {
            let e = find_bare_end(v, p);
            proof {
                lemma_bare_end(v@, p as int);
            }
            let token = trim_range(v, p, e);
            if token.len() > 0 {
                out.push(read_bare_arg(&token));
            }
            pos = e;
        }
        proof {
            if out@.len() > before.len() {
                assert(out.deep_view() =~= before.push(out@.last().deep_view()));
            } else {
                assert(out.deep_view() =~= before);
            }
        }
    }
    out
}

/// Reads a comma-separated list of attribute arguments: quoted strings,
/// back-quoted expressions, numbers, booleans and plain words.
pub fn parse_attr_args_string(s: &str) -> (r: Vec<AttrArgValue>)
    ensures
        r.deep_view() == attr_args(s@),
{
    read_attr_args(&to_chars(s))
}

/// The end of the run of word characters that starts at `pos`.
pub open spec fn word_end(s: Seq<char>, pos: int) -> int
    decreases s.len() - pos,
{
    if 0 <= pos < s.len() && is_word(s[pos]) {
        word_end(s, pos + 1)
    } else {
        pos
    }
}

pub proof fn lemma_word_end(s: Seq<char>, pos: int)
    requires
        0 <= pos <= s.len(),
    ensures
        pos <= word_end(s, pos) <= s.len(),
    decreases s.len() - pos,
{
    if pos < s.len() && is_word(s[pos]) {
        lemma_word_end(s, pos + 1);
    }
}

/// The end of the run of word characters that starts at `pos`.
pub fn skip_word(v: &Vec<char>, pos: usize) -> (r: usize)
    requires
        pos <= v@.len(),
    ensures
        r == word_end(v@, pos as int),
        pos <= r <= v@.len(),
{
    let mut i: usize = pos;
    while i < v.len() && is_word_char(v[i])
        invariant
            pos <= i <= v@.len(),
            word_end(v@, i as int) == word_end(v@, pos as int),
        decreases v.len() - i,
    {
        i += 1;
    }
    i
}

/// The arguments of an attribute whose name ends at `pos`, and the position
/// behind them: those between the parenthesis at `pos` and the one that
/// closes it; none, and `pos`, where no parenthesis opens at `pos` or none closes it.
pub open spec fn args_at(s: Seq<char>, pos: int) -> (Seq<AttrArgView>, int) {
    if 0 <= pos < s.len() && s[pos] == '(' {
        match paren_from(s, pos, 0) {
            Some(c) => if pos < c < s.len() {
                (attr_args(s.subrange(pos + 1, c)), c + 1)
            } else {
                (Seq::empty(), pos)
            },
            None => (Seq::empty(), pos),
        }
    } else {
        (Seq::empty(), pos)
    }
}

/// Reads the arguments of an attribute whose name ends at `pos`.
pub fn read_args_at(v: &Vec<char>, pos: usize) -> (r: (Vec<AttrArgValue>, usize))
    requires
        pos <= v@.len(),
    ensures
        (r.0.deep_view(), r.1 as int) == args_at(v@, pos as int),
        pos <= r.1 <= v@.len(),
{
    if pos < v.len() && v[pos] == '(' {
        match find_balanced_paren(v, pos) {
            Some(c) => {
                let inner = slice(v, pos + 1, c);
                (read_attr_args(&inner), c + 1)
            },
            None => {
                let r: Vec<AttrArgValue> = Vec::new();
                proof {
                    assert(r.deep_view() =~= Seq::empty());
                }
                (r, pos)
            },
        }
    } else {
        let r: Vec<AttrArgValue> = Vec::new();
        proof {
            assert(r.deep_view() =~= Seq::empty());
        }
        (r, pos)
    }
}

/// The attributes of a directive line, from `pos` on and after those in
/// `acc`: each `@` that a name follows opens one.
pub open spec fn directive_attrs_from(s: Seq<char>, pos: int, acc: Seq<RawAttributeView>) -> Seq<
    RawAttributeView,
>
    decreases s.len() - pos,
{
    if pos < 0 || pos >= s.len() {
        acc
    } else {
        let at = find_from(s, '@', pos);
        if at < pos || at >= s.len() {
            acc
        } else {
            let e = word_end(s, at + 1);
            if e <= at || e > s.len() {
                acc
            } else if e == at + 1 {
                directive_attrs_from(s, e, acc)
            } else {
                let (args, next) = args_at(s, e);
                if next < e {
                    acc
                } else {
                    directive_attrs_from(
                        s,
                        next,
                        acc.push(
                            RawAttributeView {
                                name: s.subrange(at + 1, e),
                                args: args,
                                cascade: None,
                            },
                        ),
                    )
                }
            }
        }
    }
}

/// The attributes of a directive line.
pub open spec fn directive_attrs(s: Seq<char>) -> Seq<RawAttributeView> {
    directive_attrs_from(s, 0, Seq::empty())
}

/// Reads the attributes of a line that holds nothing else.
pub fn parse_attributes_balanced(v: &Vec<char>) -> (r: Vec<RawAttribute>)
    ensures
        r.deep_view() == directive_attrs(v@),
{
    let n = v.len();
    let mut out: Vec<RawAttribute> = Vec::new();
    let mut pos: usize = 0;
    proof {
        assert(out.deep_view() =~= Seq::empty());
    }
    while pos < n
        invariant
            pos <= n == v@.len(),
            directive_attrs_from(v@, pos as int, out.deep_view()) == directive_attrs(v@),
        decreases n - pos,
    {
        let at = find_char(v, '@', pos);
        if at >= n {
            return out;
        }
        let e = skip_word(v, at + 1);
        if e == at + 1 {
            pos = e;
        } else {
            let name = substring(v, at + 1, e);
            let (args, next) = read_args_at(v, e);
            let ghost before = out.deep_view();
            let attr = RawAttribute { name, args, cascade: None };
            out.push(attr);
            proof {
                assert(out.deep_view() =~= before.push(out@.last().deep_view()));
            }
            pos = next;
        }
    }
    out
}

} // verus!
