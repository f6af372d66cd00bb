//! Regular expressions. The grammar of the source language is written down as
//! patterns of the `regex` crate, which does the matching. What it finds is
//! named here, and the rest of the crate works on those names.

use vstd::prelude::*;

verus! {

/// What `regex::Regex::captures` finds for `pattern` in `text`: `None` where
/// the pattern matches nowhere (or is no pattern), else the groups of the
/// leftmost match, group 0 (the whole match) first, each `None` where the
/// group took no part in the match.
pub uninterp spec fn regex_captures(pattern: Seq<char>, text: Seq<char>) -> Option<
    Seq<Option<Seq<char>>>,
>;

/// What `regex::Regex::captures_iter` finds for `pattern` in `text`: the
/// groups of each of the successive matches that do not overlap, in order.
pub uninterp spec fn regex_captures_all(pattern: Seq<char>, text: Seq<char>) -> Seq<
    Seq<Option<Seq<char>>>,
>;

/// What `regex::Regex::replace` makes of `text` with an empty replacement:
/// `text` without the leftmost match of `pattern`.
pub uninterp spec fn regex_remove_first(pattern: Seq<char>, text: Seq<char>) -> Seq<char>;

/// What `regex::Regex::replace_all` makes of `text` with an empty
/// replacement: `text` without any match of `pattern`.
pub uninterp spec fn regex_remove_all(pattern: Seq<char>, text: Seq<char>) -> Seq<char>;

/// The groups of one match, as texts.
pub open spec fn groups(g: Seq<Option<Vec<char>>>) -> Seq<Option<Seq<char>>> {
    Seq::new(
        g.len(),
        |i: int|
            match g[i] {
                Some(t) => Some(t@),
                None => None,
            },
    )
}

/// The groups of each match of a list, as texts.
pub open spec fn all_groups(m: Seq<Vec<Option<Vec<char>>>>) -> Seq<Seq<Option<Seq<char>>>> {
    Seq::new(m.len(), |i: int| groups(m[i]@))
}

/// What a search found, as texts.
pub open spec fn found(r: Option<Vec<Option<Vec<char>>>>) -> Option<Seq<Option<Seq<char>>>> {
    match r {
        Some(g) => Some(groups(g@)),
        None => None,
    }
}

/// The text of group `i`, or `None` where the match has no such group or the
/// group took no part.
pub open spec fn group_text(g: Seq<Option<Seq<char>>>, i: int) -> Option<Seq<char>> {
    if 0 <= i < g.len() {
        g[i]
    } else {
        None
    }
}

/// Compiles `pattern` with `regex::Regex::new` and calls `Regex::captures` on
/// `text`. The result is the value that `regex_captures` names; a text that
/// is no pattern gives `None`. Nothing else is claimed of it.
#[verifier::external_body]
pub(crate) fn captures(pattern: &str, text: &Vec<char>) -> (r: Option<Vec<Option<Vec<char>>>>)
    ensures
        found(r) == regex_captures(pattern@, text@),
{
    let hay: String = text.iter().collect();
    match regex::Regex::new(pattern) {
        Ok(re) => re.captures(&hay).map(
            |c| c.iter().map(|g| g.map(|m| m.as_str().chars().collect())).collect(),
        ),
        Err(_) => None,
    }
}

/// Compiles `pattern` with `regex::Regex::new` and walks `Regex::captures_iter`
/// over `text`. The result is the value that `regex_captures_all` names; a
/// text that is no pattern gives no match.
#[verifier::external_body]
pub(crate) fn captures_all(pattern: &str, text: &Vec<char>) -> (r: Vec<Vec<Option<Vec<char>>>>)
    ensures
        all_groups(r@) == regex_captures_all(pattern@, text@),
{
    let hay: String = text.iter().collect();
    match regex::Regex::new(pattern) {
        Ok(re) => re.captures_iter(&hay).map(
            |c| c.iter().map(|g| g.map(|m| m.as_str().chars().collect())).collect(),
        ).collect(),
        Err(_) => Vec::new(),
    }
}

/// Compiles `pattern` with `regex::Regex::new` and calls `Regex::replace` on
/// `text` with an empty replacement. The result is the value that
/// `regex_remove_first` names; a text that is no pattern leaves `text` as it is.
#[verifier::external_body]
pub(crate) fn remove_first(pattern: &str, text: &Vec<char>) -> (r: Vec<char>)
    ensures
        r@ == regex_remove_first(pattern@, text@),
{
    let hay: String = text.iter().collect();
    match regex::Regex::new(pattern) {
        Ok(re) => re.replace(&hay, "").chars().collect(),
        Err(_) => hay.chars().collect(),
    }
}

/// Compiles `pattern` with `regex::Regex::new` and calls `Regex::replace_all`
/// on `text` with an empty replacement. The result is the value that
/// `regex_remove_all` names; a text that is no pattern leaves `text` as it is.
#[verifier::external_body]
pub(crate) fn remove_all(pattern: &str, text: &Vec<char>) -> (r: Vec<char>)
    ensures
        r@ == regex_remove_all(pattern@, text@),
{
    let hay: String = text.iter().collect();
    match regex::Regex::new(pattern) {
        Ok(re) => re.replace_all(&hay, "").chars().collect(),
        Err(_) => hay.chars().collect(),
    }
}

/// The text of group `i` of a match; `None` where there is no such group or
/// it took no part in the match.
pub fn group(g: &Vec<Option<Vec<char>>>, i: usize) -> (r: Option<Vec<char>>)
    ensures
        crate::text::opt_text(r) == group_text(groups(g@), i as int),
{
    if i < g.len() {
        match &g[i] {
            Some(t) => Some(crate::text::slice(t, 0, t.len())),
            None => None,
        }
    } else {
        None
    }
}

} // verus!
