//! Scanning for the end of a quoted text or of a parenthesis, with the quoting
//! rules of attribute arguments: a backslash keeps the character after it from
//! ending a double-quoted or back-quoted text, and quoted text hides
//! parentheses.

use vstd::prelude::*;
use crate::text::{find_char, find_from};

verus! {

/// A position, as an integer.
pub open spec fn position(r: Option<usize>) -> Option<int> {
    match r {
        Some(i) => Some(i as int),
        None => None,
    }
}

/// The position of the first `quote` at or after `i` that no backslash
/// escapes, scanning from `i`.
pub open spec fn closing_from(s: Seq<char>, quote: char, i: int) -> Option<int>
    decreases s.len() - i,
{
    if i < 0 || i >= s.len() {
        None
    } else if s[i] == '\\' {
        if i + 2 <= s.len() {
            closing_from(s, quote, i + 2)
        } else {
            None
        }
    } else if s[i] == quote {
        Some(i)
    } else {
        closing_from(s, quote, i + 1)
    }
}

/// What `closing_from` finds lies at or after the start, inside the text, and
/// holds the quote.
pub proof fn lemma_closing_from(s: Seq<char>, quote: char, i: int)
    requires
        0 <= i,
    ensures
        closing_from(s, quote, i) matches Some(c) ==> i <= c < s.len() && s[c] == quote,
    decreases s.len() - i,
{
    if i < s.len() {
        if s[i] == '\\' {
            if i + 2 <= s.len() {
                lemma_closing_from(s, quote, i + 2);
            }
        } else if s[i] != quote {
            lemma_closing_from(s, quote, i + 1);
        }
    }
}

/// The quote that closes a text opened at `open_pos`: the first `quote` after
/// `open_pos` that no backslash escapes.
fn find_closing(v: &Vec<char>, quote: char, open_pos: usize) -> (r: Option<usize>)
    requires
        open_pos < v@.len(),
    ensures
        position(r) == closing_from(v@, quote, open_pos + 1),
        r matches Some(c) ==> open_pos < c < v@.len() && v@[c as int] == quote,
{
    let n = v.len();
    let mut i: usize = open_pos + 1;
    while i < n
        invariant
            open_pos < i,
            n == v@.len(),
            closing_from(v@, quote, i as int) == closing_from(v@, quote, open_pos + 1),
        decreases n - i,
    {
        if v[i] == '\\' {
            if n - i < 2 {
                return None;
            }
            i += 2;
        } else if v[i] == quote {
            return Some(i);
        } else {
            i += 1;
        }
    }
    None
}

/// The double quote that closes the text opened at `open_pos`.
pub fn find_closing_quote(v: &Vec<char>, open_pos: usize) -> (r: Option<usize>)
    requires
        open_pos < v@.len(),
    ensures
        position(r) == closing_from(v@, '"', open_pos + 1),
        r matches Some(c) ==> open_pos < c < v@.len() && v@[c as int] == '"',
{
    find_closing(v, '"', open_pos)
}

/// The back quote that closes the text opened at `open_pos`.
pub fn find_closing_backtick(v: &Vec<char>, open_pos: usize) -> (r: Option<usize>)
    requires
        open_pos < v@.len(),
    ensures
        position(r) == closing_from(v@, '`', open_pos + 1),
        r matches Some(c) ==> open_pos < c < v@.len() && v@[c as int] == '`',
{
    find_closing(v, '`', open_pos)
}

/// Where the scan for a closing parenthesis goes on after the character at
/// `i`: behind the end of a quoted text that starts at `i`, else at `i + 1`.
pub open spec fn after_quoted(s: Seq<char>, i: int) -> int {
    if s[i] == '"' || s[i] == '`' {
        match closing_from(s, s[i], i + 1) {
            Some(c) => if i < c < s.len() {
                c + 1
            } else {
                i + 1
            },
            None => i + 1,
        }
    } else if s[i] == '\'' {
        let c = find_from(s, '\'', i + 1);
        if i < c < s.len() {
            c + 1
        } else {
            i + 1
        }
    } else {
        i + 1
    }
}

/// The position of the `)` at which the count of open parentheses, `depth`
/// before position `i`, comes back to zero; quoted text is passed over.
pub open spec fn paren_from(s: Seq<char>, i: int, depth: int) -> Option<int>
    decreases s.len() - i,
{
    if i < 0 || i >= s.len() {
        None
    } else if s[i] == '(' {
        paren_from(s, i + 1, depth + 1)
    } else if s[i] == ')' {
        if depth == 1 {
            Some(i)
        } else {
            paren_from(s, i + 1, depth - 1)
        }
    } else {
        paren_from(s, after_quoted(s, i), depth)
    }
}

pub proof fn lemma_paren_from(s: Seq<char>, i: int, depth: int)
    requires
        0 <= i,
    ensures
        paren_from(s, i, depth) matches Some(c) ==> i <= c < s.len() && s[c] == ')',
    decreases s.len() - i,
{
    if i < s.len() {
        if s[i] == '(' {
            lemma_paren_from(s, i + 1, depth + 1);
        } else if s[i] == ')' {
            if depth != 1 {
                lemma_paren_from(s, i + 1, depth - 1);
            }
        } else {
            lemma_paren_from(s, after_quoted(s, i), depth);
        }
    }
}

/// The parenthesis that closes the one at `open_pos`.
pub fn find_balanced_paren(v: &Vec<char>, open_pos: usize) -> (r: Option<usize>)
    requires
        open_pos < v@.len(),
    ensures
        position(r) == paren_from(v@, open_pos as int, 0),
        r matches Some(c) ==> open_pos <= c < v@.len() && v@[c as int] == ')',
{
    let n = v.len();
    let mut depth: i128 = 0;
    let mut i: usize = open_pos;
    while i < n
        invariant
            open_pos <= i,
            n == v@.len(),
            -(i as int) <= depth <= i as int,
            paren_from(v@, i as int, depth as int) == paren_from(v@, open_pos as int, 0),
        decreases n - i,
    {
        let c = v[i];
        if c == '(' {
            depth += 1;
            i += 1;
        } else if c == ')' {
            if depth == 1 {
                return Some(i);
            }
            depth -= 1;
            i += 1;
        } else if c == '"' || c == '`' {
            proof {
                lemma_closing_from(v@, c, i + 1);
            }
            match find_closing(v, c, i) {
                Some(close) => {
                    i = close + 1;
                },
                None => {
                    i += 1;
                },
            }
        } else if c == '\'' {
            let close = find_char(v, '\'', i + 1);
            if close < n {
                i = close + 1;
            } else {
                i += 1;
            }
        } else {
            i += 1;
        }
    }
    None
}

} // verus!
