//! Values written in the source: the argument of a framework attribute, a
//! list in brackets, a join, and the typed values of metadata and nested
//! items; and JSON objects that are filled key by key.

use vstd::prelude::*;
use crate::number::{integer_of, is_number, is_number_text, parse_integer};
use crate::text::{
    chars_eq, contains_char, find_sub, find_sub_from, from_chars, slice, split, split_trimmed,
    str_eq, strip_chars, substring, to_chars, trim, trim_chars, trim_end_of, trim_of, trim_range,
    trim_start_of, trimmed_nonempty,
};
use crate::types::{
    lemma_json_array, lemma_json_object, AttrArgValue, AttrArgView, JoinDef, JoinDefView,
    JsonMember, JsonValue, JsonView, NumberLit,
};

verus! {

/// The pieces of `s` from `start` on, after those in `acc`: `s` is cut at
/// each comma at which the count of open parentheses, `depth` before
/// position `i`, is zero.
pub open spec fn balanced_from(
    s: Seq<char>,
    i: int,
    start: int,
    depth: int,
    acc: Seq<Seq<char>>,
) -> Seq<Seq<char>>
    decreases s.len() - i,
{
    if i < 0 || i >= s.len() || start < 0 || start > i {
        if 0 <= start <= s.len() {
            acc.push(s.subrange(start, s.len() as int))
        } else {
            acc
        }
    } else if s[i] == '(' {
        balanced_from(s, i + 1, start, depth + 1, acc)
    } else if s[i] == ')' {
        balanced_from(s, i + 1, start, depth - 1, acc)
    } else if s[i] == ',' && depth == 0 {
        balanced_from(s, i + 1, i + 1, depth, acc.push(s.subrange(start, i)))
    } else {
        balanced_from(s, i + 1, start, depth, acc)
    }
}

/// The pieces of `s` between the commas that stand outside parentheses.
pub open spec fn balanced_pieces(s: Seq<char>) -> Seq<Seq<char>> {
    balanced_from(s, 0, 0, 0, Seq::empty())
}

/// Cuts `s` at the commas that stand outside parentheses.
pub fn split_balanced(s: &Vec<char>) -> (r: Vec<Vec<char>>)
    ensures
        crate::text::texts(r@) == balanced_pieces(s@),
{
    let n = s.len();
    let mut out: Vec<Vec<char>> = Vec::new();
    let mut depth: i128 = 0;
    let mut start: usize = 0;
    let mut i: usize = 0;
    proof {
        assert(crate::text::texts(out@) =~= Seq::empty());
    }
    while i < n
        invariant
            start <= i <= n == s@.len(),
            -(i as int) <= depth <= i as int,
            balanced_from(s@, i as int, start as int, depth as int, crate::text::texts(out@))
                == balanced_pieces(s@),
        decreases n - i,
    {
        let c = s[i];
        if c == '(' {
            depth += 1;
        } else if c == ')' {
            depth -= 1;
        } else if c == ',' && depth == 0 {
            let ghost before = crate::text::texts(out@);
            out.push(slice(s, start, i));
            proof {
                assert(crate::text::texts(out@) =~= before.push(
                    s@.subrange(start as int, i as int),
                ));
            }
            start = i + 1;
        }
        i += 1;
    }
    let ghost before = crate::text::texts(out@);
    out.push(slice(s, start, n));
    proof {
        assert(crate::text::texts(out@) =~= before.push(s@.subrange(start as int, n as int)));
    }
    out
}

/// Whether `s` stands between two double quotes or between two single quotes.
pub open spec fn is_quoted(s: Seq<char>) -> bool {
    s.len() >= 2 && ((s[0] == '"' && s.last() == '"') || (s[0] == '\'' && s.last() == '\''))
}

/// The value that `s` writes: a boolean, a number, or a string, without the
/// quotes around it where it has them.
pub open spec fn arg_value(s: Seq<char>) -> AttrArgView {
    if s == "true"@ {
        AttrArgView::Bool(true)
    } else if s == "false"@ {
        AttrArgView::Bool(false)
    } else if is_number(s) {
        AttrArgView::Number(s)
    } else if is_quoted(s) {
        AttrArgView::String(s.subrange(1, s.len() - 1))
    } else {
        AttrArgView::String(s)
    }
}

/// Reads one value.
pub fn parse_arg_value(s: &Vec<char>) -> (r: AttrArgValue)
    ensures
        r.deep_view() == arg_value(s@),
{
    let n = s.len();
    if chars_eq(s, "true") {
        AttrArgValue::Bool(true)
    } else if chars_eq(s, "false") {
        AttrArgValue::Bool(false)
    } else if is_number_text(s) {
        AttrArgValue::Number(NumberLit { text: from_chars(s) })
    } else if n >= 2 && ((s[0] == '"' && s[n - 1] == '"') || (s[0] == '\'' && s[n - 1] == '\'')) {
        AttrArgValue::String(substring(s, 1, n - 1))
    } else {
        AttrArgValue::String(from_chars(s))
    }
}

/// The items of a list: the brackets at the ends are dropped, the text is cut
/// at the commas, and the pieces are trimmed; empty pieces are left out.
pub open spec fn array_value(value: Seq<char>) -> Seq<Seq<char>> {
    trimmed_nonempty(split(trim_end_of(trim_start_of(value, seq!['[']), seq![']']), ','))
}

/// Reads a list written as `[a, b, c]`.
pub fn parse_array_value(value: &Vec<char>) -> (r: Vec<String>)
    ensures
        r.deep_view() == array_value(value@),
{
    proof {
        reveal_strlit("[");
        reveal_strlit("]");
        assert("["@ =~= seq!['[']);
        assert("]"@ =~= seq![']']);
    }
    let a = strip_chars(value, "[", true, false);
    let b = strip_chars(&a, "]", false, true);
    split_trimmed(&b, ',', false)
}

/// The text that stands between the model and the condition of a join.
pub open spec fn join_word() -> Seq<char> {
    " on "@
}

/// A join: the model before the first ` on ` and the condition after it,
/// both trimmed; a text without ` on ` names a model only.
pub open spec fn join_value(value: Seq<char>) -> JoinDefView {
    let at = find_sub_from(value, join_word(), 0);
    if 0 <= at < value.len() && at + join_word().len() <= value.len() {
        JoinDefView {
            model: trim(value.subrange(0, at)),
            on: trim(value.subrange(at + join_word().len(), value.len() as int)),
        }
    } else {
        JoinDefView { model: trim(value), on: Seq::empty() }
    }
}

/// Reads a join, `Model on condition`.
pub fn parse_join_value(value: &Vec<char>) -> (r: JoinDef)
    ensures
        r.deep_view() == join_value(value@),
{
    let word = to_chars(" on ");
    let n = value.len();
    let at = find_sub(value, &word, 0);
    if at < n {
        JoinDef {
            model: from_chars(&trim_range(value, 0, at)),
            on: from_chars(&trim_range(value, at + word.len(), n)),
        }
    } else {
        proof {
            assert(value@.subrange(0, n as int) =~= value@);
        }
        JoinDef { model: from_chars(&trim_range(value, 0, n)), on: String::new() }
    }
}

/// The two quote characters.
pub open spec fn quotes() -> Seq<char> {
    seq!['"', '\'']
}

/// A number as a JSON value: an integer where it is written without a point
/// and fits 64 bits, else the number as written.
pub open spec fn number_value(s: Seq<char>) -> JsonView {
    if s.contains('.') {
        JsonView::Number(s)
    } else {
        match integer_of(s) {
            Some(i) => JsonView::Int(i),
            None => JsonView::Number(s),
        }
    }
}

fn read_number_value(s: &Vec<char>) -> (r: JsonValue)
    ensures
        r.deep_view() == number_value(s@),
{
    if contains_char(s, '.') {
        JsonValue::Number(NumberLit { text: from_chars(s) })
    } else {
        match parse_integer(s) {
            Some(i) => JsonValue::Int(i),
            None => JsonValue::Number(NumberLit { text: from_chars(s) }),
        }
    }
}

/// Whether `s` starts and ends with a double quote, or with a single quote.
pub open spec fn in_quotes(s: Seq<char>) -> bool {
    s.len() > 0 && ((s[0] == '"' && s.last() == '"') || (s[0] == '\'' && s.last() == '\''))
}

/// The value of a metadata entry: a quoted text is a string; a number is an
/// integer or a number; `true` and `false` are booleans; anything else is a
/// string. Quotes at the ends are dropped.
pub open spec fn metadata_value(value: Seq<char>) -> JsonView {
    let unquoted = trim_of(value, quotes());
    if in_quotes(value) {
        JsonView::String(unquoted)
    } else if is_number(unquoted) {
        number_value(unquoted)
    } else if unquoted == "true"@ {
        JsonView::Bool(true)
    } else if unquoted == "false"@ {
        JsonView::Bool(false)
    } else {
        JsonView::String(unquoted)
    }
}

fn unquote(v: &Vec<char>) -> (r: Vec<char>)
    ensures
        r@ == trim_of(v@, quotes()),
{
    proof {
        reveal_strlit("\"'");
        assert("\"'"@ =~= quotes());
    }
    strip_chars(v, "\"'", true, true)
}

fn is_in_quotes(s: &Vec<char>) -> (r: bool)
    ensures
        r == in_quotes(s@),
{
    let n = s.len();
    n > 0 && ((s[0] == '"' && s[n - 1] == '"') || (s[0] == '\'' && s[n - 1] == '\''))
}

/// Reads the value of a metadata entry.
pub fn parse_metadata_value(value: &Vec<char>) -> (r: JsonValue)
    ensures
        r.deep_view() == metadata_value(value@),
{
    let unquoted = unquote(value);
    if is_in_quotes(value) {
        JsonValue::String(from_chars(&unquoted))
    } else if is_number_text(&unquoted) {
        read_number_value(&unquoted)
    } else if chars_eq(&unquoted, "true") {
        JsonValue::Bool(true)
    } else if chars_eq(&unquoted, "false") {
        JsonValue::Bool(false)
    } else {
        JsonValue::String(from_chars(&unquoted))
    }
}

/// A list of texts as JSON strings.
pub open spec fn string_values(items: Seq<Seq<char>>) -> Seq<JsonView> {
    Seq::new(items.len(), |i: int| JsonView::String(items[i]))
}

/// The value of a nested item: a list in brackets, a boolean, a number, or
/// a string without the quotes at its ends.
pub open spec fn nested_value(value: Seq<char>) -> JsonView {
    let s = trim(value);
    if s.len() > 0 && s[0] == '[' && s.last() == ']' {
        JsonView::Array(string_values(array_value(s)))
    } else if s == "true"@ {
        JsonView::Bool(true)
    } else if s == "false"@ {
        JsonView::Bool(false)
    } else if is_number(s) {
        number_value(s)
    } else {
        JsonView::String(trim_of(s, quotes()))
    }
}

/// Reads the value of a nested item.
pub fn parse_nested_value(value: &Vec<char>) -> (r: JsonValue)
    ensures
        r.deep_view() == nested_value(value@),
{
    let s = trim_chars(value);
    let n = s.len();
    if n > 0 && s[0] == '[' && s[n - 1] == ']' {
        let mut items = parse_array_value(&s);
        let mut out: Vec<JsonValue> = Vec::new();
        let ghost all = items.deep_view();
        let mut i: usize = 0;
        while i < items.len()
            invariant
                i <= items@.len(),
                all == items.deep_view(),
                out@.len() == i,
                forall|j: int| 0 <= j < i ==> out@[j].deep_view() == JsonView::String(all[j]),
            decreases items.len() - i,
        {
            out.push(JsonValue::String(items[i].clone()));
            i += 1;
        }
        proof {
            lemma_json_array(out);
            assert(out.deep_view() =~= string_values(all));
        }
        JsonValue::Array(out)
    } else if chars_eq(&s, "true") {
        JsonValue::Bool(true)
    } else if chars_eq(&s, "false") {
        JsonValue::Bool(false)
    } else if is_number_text(&s) {
        read_number_value(&s)
    } else {
        JsonValue::String(from_chars(&unquote(&s)))
    }
}

/// An argument as a JSON value.
pub open spec fn arg_json(a: AttrArgView) -> JsonView {
    match a {
        AttrArgView::String(s) => JsonView::String(s),
        AttrArgView::Number(n) => JsonView::Number(n),
        AttrArgView::Bool(b) => JsonView::Bool(b),
    }
}

/// The arguments of a directive as a JSON value: the value itself where
/// there is one argument, else the list of the values.
pub open spec fn args_json(args: Seq<AttrArgView>) -> JsonView {
    if args.len() == 1 {
        arg_json(args[0])
    } else {
        JsonView::Array(Seq::new(args.len(), |i: int| arg_json(args[i])))
    }
}

fn arg_to_json(a: &AttrArgValue) -> (r: JsonValue)
    ensures
        r.deep_view() == arg_json(a.deep_view()),
{
    match a {
        AttrArgValue::String(s) => JsonValue::String(s.clone()),
        AttrArgValue::Number(n) => JsonValue::Number(n.clone()),
        AttrArgValue::Bool(b) => JsonValue::Bool(*b),
    }
}

/// Turns the arguments of a directive into a JSON value.
pub fn attr_args_to_json(args: &Vec<AttrArgValue>) -> (r: JsonValue)
    ensures
        r.deep_view() == args_json(args.deep_view()),
{
    if args.len() == 1 {
        arg_to_json(&args[0])
    } else {
        let mut out: Vec<JsonValue> = Vec::new();
        let mut i: usize = 0;
        while i < args.len()
            invariant
                i <= args@.len(),
                out@.len() == i,
                forall|j: int| 0 <= j < i ==> out@[j].deep_view() == arg_json(args@[j].deep_view()),
            decreases args.len() - i,
        {
            out.push(arg_to_json(&args[i]));
            i += 1;
        }
        proof {
            lemma_json_array(out);
            assert(out.deep_view() =~= Seq::new(
                args.deep_view().len(),
                |i: int| arg_json(args.deep_view()[i]),
            ));
        }
        JsonValue::Array(out)
    }
}

/// The position of the member with the key `key`, or the number of members.
pub open spec fn member_index(members: Seq<(Seq<char>, JsonView)>, key: Seq<char>, from: int) -> int
    decreases members.len() - from,
{
    if from < 0 || from >= members.len() {
        members.len() as int
    } else if members[from].0 == key {
        from
    } else {
        member_index(members, key, from + 1)
    }
}

/// The members with `key` set to `value`: in place where the key is there
/// already, at the end where it is new.
pub open spec fn with_member(
    members: Seq<(Seq<char>, JsonView)>,
    key: Seq<char>,
    value: JsonView,
) -> Seq<(Seq<char>, JsonView)> {
    let i = member_index(members, key, 0);
    if 0 <= i < members.len() {
        members.update(i, (key, value))
    } else {
        members.push((key, value))
    }
}

/// The position of the member with the key `key`, or the number of members.
pub fn find_member(members: &Vec<JsonMember>, key: &str) -> (r: usize)
    ensures
        r == member_index(members.deep_view(), key@, 0),
        r <= members@.len(),
        r < members@.len() ==> members@[r as int].key@ == key@,
{
    let mut i: usize = 0;
    while i < members.len()
        invariant
            i <= members@.len(),
            member_index(members.deep_view(), key@, i as int) == member_index(
                members.deep_view(),
                key@,
                0,
            ),
        decreases members.len() - i,
    {
        proof {
            assert(members.deep_view()[i as int].0 == members@[i as int].key@);
        }
        if str_eq(members[i].key.as_str(), key) {
            return i;
        }
        i += 1;
    }
    i
}

/// Sets `key` to `value` in a list of members that holds each key once.
pub fn set_member(members: &mut Vec<JsonMember>, key: &str, value: JsonValue)
    ensures
        final(members).deep_view() == with_member(
            old(members).deep_view(),
            key@,
            value.deep_view(),
        ),
{
    let ghost before = members.deep_view();
    let i = find_member(members, key);
    if i < members.len() {
        members[i].value = value;
        proof {
            assert(members.deep_view() =~= before.update(i as int, (key@, value.deep_view())));
        }
    } else {
        members.push(JsonMember { key: String::from_str(key), value });
        proof {
            assert(members.deep_view() =~= before.push((key@, value.deep_view())));
        }
    }
}

/// The members with `entry` added to the list under `key`: a new list where
/// the key is new; unchanged where the key holds something that is no list.
pub open spec fn with_listed(
    members: Seq<(Seq<char>, JsonView)>,
    key: Seq<char>,
    entry: JsonView,
) -> Seq<(Seq<char>, JsonView)> {
    let i = member_index(members, key, 0);
    if 0 <= i < members.len() {
        match members[i].1 {
            JsonView::Array(items) => members.update(i, (key, JsonView::Array(items.push(entry)))),
            _ => members,
        }
    } else {
        members.push((key, JsonView::Array(seq![entry])))
    }
}

/// Adds `entry` to the list under `key`.
pub fn add_listed(members: &mut Vec<JsonMember>, key: &str, entry: JsonValue)
    ensures
        final(members).deep_view() == with_listed(
            old(members).deep_view(),
            key@,
            entry.deep_view(),
        ),
{
    let ghost before = members.deep_view();
    let i = find_member(members, key);
    if i < members.len() {
        let mut member = members.remove(i);
        let ghost old_value = member.value.deep_view();
        match member.value {
            JsonValue::Array(mut items) => {
                proof {
                    lemma_json_array(items);
                }
                let ghost items_before = items.deep_view();
                items.push(entry);
                proof {
                    assert(items.deep_view() =~= items_before.push(entry.deep_view()));
                    lemma_json_array(items);
                }
                member.value = JsonValue::Array(items);
            },
            other => {
                member.value = other;
            },
        }
        members.insert(i, member);
        proof {
            assert(members.deep_view() =~= with_listed(before, key@, entry.deep_view()));
        }
    } else {
        let mut items: Vec<JsonValue> = Vec::new();
        items.push(entry);
        proof {
            lemma_json_array(items);
            assert(items.deep_view() =~= seq![entry.deep_view()]);
        }
        members.push(JsonMember { key: String::from_str(key), value: JsonValue::Array(items) });
        proof {
            assert(members.deep_view() =~= before.push(
                (key@, JsonView::Array(seq![entry.deep_view()])),
            ));
        }
    }
}

/// A JSON object with the members `members`.
pub fn object(members: Vec<JsonMember>) -> (r: JsonValue)
    ensures
        r.deep_view() == JsonView::Object(members.deep_view()),
{
    proof {
        lemma_json_object(members);
    }
    JsonValue::Object(members)
}

/// Adds a member at the end.
pub fn push_member(members: &mut Vec<JsonMember>, key: &str, value: JsonValue)
    ensures
        final(members).deep_view() == old(members).deep_view().push((key@, value.deep_view())),
{
    let ghost before = members.deep_view();
    members.push(JsonMember { key: String::from_str(key), value });
    proof {
        assert(members.deep_view() =~= before.push((key@, value.deep_view())));
    }
}

/// A text as a JSON string.
pub fn text_json(s: &str) -> (r: JsonValue)
    ensures
        r.deep_view() == JsonView::String(s@),
{
    JsonValue::String(String::from_str(s))
}

/// A place in a source file as a JSON object.
pub open spec fn loc_entry(file: Seq<char>, line: usize) -> JsonView {
    JsonView::Object(
        seq![
            ("file"@, JsonView::String(file)),
            ("line"@, JsonView::Int(line as int)),
            ("col"@, JsonView::Int(1)),
        ],
    )
}

/// The place `file:line`, column 1, as a JSON object.
pub fn loc_json(file: &str, line: usize) -> (r: JsonValue)
    ensures
        r.deep_view() == loc_entry(file@, line),
{
    let mut members: Vec<JsonMember> = Vec::new();
    proof {
        assert(members.deep_view() =~= Seq::empty());
    }
    push_member(&mut members, "file", text_json(file));
    push_member(&mut members, "line", JsonValue::UInt(line as u64));
    push_member(&mut members, "col", JsonValue::UInt(1));
    proof {
        assert(members.deep_view() =~= seq![
            ("file"@, JsonView::String(file@)),
            ("line"@, JsonView::Int(line as int)),
            ("col"@, JsonView::Int(1)),
        ]);
    }
    object(members)
}

} // verus!
