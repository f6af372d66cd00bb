//! Character sequences: the conversions between `str` and `Vec<char>` and the
//! small searches, splits and trims that the rest of the crate is built from.
//! Every position in this crate counts characters, not bytes.

use vstd::prelude::*;
use vstd::string::*;

verus! {

/// Whether `c` is a white-space character: one of the 25 characters with
/// the Unicode property `White_Space`, which are tab to carriage return,
/// the space, the next-line mark, the no-break space, the Ogham space, the
/// spaces from the en quad to the hair space, the line and the paragraph
/// separator, the narrow no-break space, the medium mathematical space and
/// the ideographic space.
pub open spec fn white_space(c: char) -> bool {
    ||| '\u{9}' <= c <= '\u{d}'
    ||| c == ' '
    ||| c == '\u{85}'
    ||| c == '\u{a0}'
    ||| c == '\u{1680}'
    ||| '\u{2000}' <= c <= '\u{200a}'
    ||| c == '\u{2028}'
    ||| c == '\u{2029}'
    ||| c == '\u{202f}'
    ||| c == '\u{205f}'
    ||| c == '\u{3000}'
}

/// `char::is_whitespace`, which tells whether a character has the Unicode
/// property `White_Space`: its answer is `white_space(c)`.
#[verifier::external_body]
pub(crate) fn is_whitespace(c: char) -> (r: bool)
    ensures
        r == white_space(c),
{
    c.is_whitespace()
}

/// The lower-case form of a text, as `str::to_lowercase` gives it.
pub uninterp spec fn lowercase(s: Seq<char>) -> Seq<char>;

/// `str::to_lowercase`: the result is the text that `lowercase` names.
#[verifier::external_body]
pub(crate) fn to_lowercase(s: &str) -> (r: String)
    ensures
        r@ == lowercase(s@),
{
    s.to_lowercase()
}

/// A string made of the characters `v[from..to]`, through `String`'s `FromIterator<char>`.
#[verifier::external_body]
pub(crate) fn substring(v: &Vec<char>, from: usize, to: usize) -> (r: String)
    requires
        from <= to <= v@.len(),
    ensures
        r@ == v@.subrange(from as int, to as int),
{
    String::from_iter(v[from..to].iter())
}

/// The characters of `s`, in order.
pub fn to_chars(s: &str) -> (r: Vec<char>)
    ensures
        r@ == s@,
{
    let mut out: Vec<char> = Vec::new();
    for c in it: s.chars()
        invariant
            out@ == it.seq().take(it.index@),
    {
        out.push(c);
    }
    out
}

/// The string that holds the characters of `v`.
pub fn from_chars(v: &Vec<char>) -> (r: String)
    ensures
        r@ == v@,
{
    let r = substring(v, 0, v.len());
    proof {
        assert(v@.subrange(0, v@.len() as int) =~= v@);
    }
    r
}

/// Whether two strings hold the same characters.
pub fn str_eq(a: &str, b: &str) -> (r: bool)
    ensures
        r == (a@ == b@),
{
    let x = String::from_str(a);
    let y = String::from_str(b);
    x == y
}

/// Whether `v` holds exactly the characters of `lit`.
pub fn chars_eq(v: &Vec<char>, lit: &str) -> (r: bool)
    ensures
        r == (v@ == lit@),
{
    let w = to_chars(lit);
    same_chars(v, &w)
}

/// Whether two character vectors are equal.
pub fn same_chars(a: &Vec<char>, b: &Vec<char>) -> (r: bool)
    ensures
        r == (a@ == b@),
{
    if a.len() != b.len() {
        return false;
    }
    let mut i: usize = 0;
    while i < a.len()
        invariant
            i <= a.len(),
            a.len() == b.len(),
            a@.take(i as int) == b@.take(i as int),
        decreases a.len() - i,
    {
        if a[i] != b[i] {
            return false;
        }
        proof {
            assert(a@.take(i + 1) =~= a@.take(i as int).push(a@[i as int]));
            assert(b@.take(i + 1) =~= b@.take(i as int).push(b@[i as int]));
        }
        i += 1;
    }
    proof {
        assert(a@.take(a@.len() as int) =~= a@);
        assert(b@.take(b@.len() as int) =~= b@);
    }
    true
}

pub open spec fn is_word(c: char) -> bool {
    ('a' <= c && c <= 'z') || ('A' <= c && c <= 'Z') || ('0' <= c && c <= '9') || c == '_'
}

/// An ASCII letter, an ASCII digit or an underscore.
pub fn is_word_char(c: char) -> (r: bool)
    ensures
        r == is_word(c),
{
    (c >= 'a' && c <= 'z') || (c >= 'A' && c <= 'Z') || (c >= '0' && c <= '9') || c == '_'
}

/// A copy of `v[from..to]`.
pub fn slice(v: &Vec<char>, from: usize, to: usize) -> (r: Vec<char>)
    requires
        from <= to <= v@.len(),
    ensures
        r@ == v@.subrange(from as int, to as int),
{
    let mut out: Vec<char> = Vec::new();
    let mut i: usize = from;
    while i < to
        invariant
            from <= i <= to <= v@.len(),
            out@ == v@.subrange(from as int, i as int),
        decreases to - i,
    {
        out.push(v[i]);
        proof {
            assert(v@.subrange(from as int, i + 1) =~= v@.subrange(from as int, i as int).push(
                v@[i as int],
            ));
        }
        i += 1;
    }
    out
}

/// The first position at or after `from` at which `c` stands, or the length
/// of `s` where there is none.
pub open spec fn find_from(s: Seq<char>, c: char, from: int) -> int
    decreases s.len() - from,
{
    if from < 0 || from >= s.len() {
        s.len() as int
    } else if s[from] == c {
        from
    } else {
        find_from(s, c, from + 1)
    }
}

/// `find_from` gives a position from `from` on, nothing before it is `c`,
/// and `c` stands at it unless it is the length.
pub proof fn lemma_find_from(s: Seq<char>, c: char, from: int)
    requires
        0 <= from <= s.len(),
    ensures
        from <= find_from(s, c, from) <= s.len(),
        find_from(s, c, from) < s.len() ==> s[find_from(s, c, from)] == c,
        forall|j: int| from <= j < find_from(s, c, from) ==> s[j] != c,
    decreases s.len() - from,
{
    if from < s.len() && s[from] != c {
        lemma_find_from(s, c, from + 1);
    }
}

/// A position with nothing but other characters before it, being `c` or the
/// end, is what `find_from` gives.
pub proof fn lemma_find_from_is(s: Seq<char>, c: char, from: int, at: int)
    requires
        0 <= from <= at <= s.len(),
        forall|j: int| from <= j < at ==> s[j] != c,
        at < s.len() ==> s[at] == c,
    ensures
        find_from(s, c, from) == at,
    decreases at - from,
{
    if from < at {
        lemma_find_from_is(s, c, from + 1, at);
    }
}

/// The first position at or after `from` that holds `c`; the length where none does.
pub fn find_char(v: &Vec<char>, c: char, from: usize) -> (r: usize)
    requires
        from <= v@.len(),
    ensures
        r == find_from(v@, c, from as int),
        from <= r <= v@.len(),
{
    let mut i: usize = from;
    while i < v.len() && v[i] != c
        invariant
            from <= i <= v@.len(),
            forall|j: int| from <= j < i ==> v@[j] != c,
        decreases v.len() - i,
    {
        i += 1;
    }
    proof {
        lemma_find_from_is(v@, c, from as int, i as int);
    }
    i
}

/// Whether `c` occurs in `v`.
pub fn contains_char(v: &Vec<char>, c: char) -> (r: bool)
    ensures
        r == v@.contains(c),
{
    let i = find_char(v, c, 0);
    proof {
        lemma_find_from(v@, c, 0);
    }
    i < v.len()
}

/// `s` without the white space at its start.
pub open spec fn trim_start(s: Seq<char>) -> Seq<char>
    decreases s.len(),
{
    if s.len() > 0 && white_space(s[0]) {
        trim_start(s.drop_first())
    } else {
        s
    }
}

/// `s` without the white space at its end.
pub open spec fn trim_end(s: Seq<char>) -> Seq<char>
    decreases s.len(),
{
    if s.len() > 0 && white_space(s.last()) {
        trim_end(s.drop_last())
    } else {
        s
    }
}

/// `s` without the white space at either end.
pub open spec fn trim(s: Seq<char>) -> Seq<char> {
    trim_end(trim_start(s))
}

/// The number of white-space characters that `s` starts with.
pub open spec fn leading_space(s: Seq<char>) -> nat {
    (s.len() - trim_start(s).len()) as nat
}

pub proof fn lemma_trim_start_is(s: Seq<char>, n: int)
    requires
        0 <= n <= s.len(),
        forall|j: int| 0 <= j < n ==> white_space(s[j]),
        n < s.len() ==> !white_space(s[n]),
    ensures
        trim_start(s) == s.subrange(n, s.len() as int),
    decreases n,
{
    if n == 0 {
        assert(s.subrange(0, s.len() as int) =~= s);
    } else {
        let t = s.drop_first();
        assert forall|j: int| 0 <= j < n - 1 implies white_space(t[j]) by {
            assert(t[j] == s[j + 1]);
        }
        lemma_trim_start_is(t, n - 1);
        assert(t.subrange(n - 1, t.len() as int) =~= s.subrange(n, s.len() as int));
    }
}

pub proof fn lemma_trim_end_is(s: Seq<char>, n: int)
    requires
        0 <= n <= s.len(),
        forall|j: int| n <= j < s.len() ==> white_space(s[j]),
        n > 0 ==> !white_space(s[n - 1]),
    ensures
        trim_end(s) == s.subrange(0, n),
    decreases s.len() - n,
{
    if n == s.len() {
        assert(s.subrange(0, s.len() as int) =~= s);
    } else {
        let t = s.drop_last();
        lemma_trim_end_is(t, n);
        assert(t.subrange(0, n) =~= s.subrange(0, n));
    }
}

/// The first position in `v[from..to]` that is no white space; `to` where all is.
pub fn skip_space(v: &Vec<char>, from: usize, to: usize) -> (r: usize)
    requires
        from <= to <= v@.len(),
    ensures
        from <= r <= to,
        forall|j: int| from <= j < r ==> white_space(v@[j]),
        r < to ==> !white_space(v@[r as int]),
{
    let mut i: usize = from;
    while i < to && is_whitespace(v[i])
        invariant
            from <= i <= to <= v@.len(),
            forall|j: int| from <= j < i ==> white_space(v@[j]),
        decreases to - i,
    {
        i += 1;
    }
    i
}

/// The end of `v[from..to]` once its trailing white space is left out.
pub fn skip_space_back(v: &Vec<char>, from: usize, to: usize) -> (r: usize)
    requires
        from <= to <= v@.len(),
    ensures
        from <= r <= to,
        forall|j: int| r <= j < to ==> white_space(v@[j]),
        r > from ==> !white_space(v@[r - 1]),
{
    let mut i: usize = to;
    while i > from && is_whitespace(v[i - 1])
        invariant
            from <= i <= to <= v@.len(),
            forall|j: int| i <= j < to ==> white_space(v@[j]),
        decreases i,
    {
        i -= 1;
    }
    i
}

/// `v[from..to]` without the white space at either end.
pub fn trim_range(v: &Vec<char>, from: usize, to: usize) -> (r: Vec<char>)
    requires
        from <= to <= v@.len(),
    ensures
        r@ == trim(v@.subrange(from as int, to as int)),
{
    let a = skip_space(v, from, to);
    let b = skip_space_back(v, a, to);
    let r = slice(v, a, b);
    proof {
        let s = v@.subrange(from as int, to as int);
        lemma_trim_start_is(s, a - from);
        let t = s.subrange(a - from, s.len() as int);
        assert(t =~= v@.subrange(a as int, to as int));
        lemma_trim_end_is(t, b - a);
        assert(t.subrange(0, b - a) =~= v@.subrange(a as int, b as int));
    }
    r
}

/// `v` without the white space at either end.
pub fn trim_chars(v: &Vec<char>) -> (r: Vec<char>)
    ensures
        r@ == trim(v@),
{
    proof {
        assert(v@.subrange(0, v@.len() as int) =~= v@);
    }
    trim_range(v, 0, v.len())
}

/// `v` without the white space at its start.
pub fn trim_start_chars(v: &Vec<char>) -> (r: Vec<char>)
    ensures
        r@ == trim_start(v@),
{
    let a = skip_space(v, 0, v.len());
    proof {
        lemma_trim_start_is(v@, a as int);
    }
    slice(v, a, v.len())
}

/// The pieces of `s` between the occurrences of `c`: one more than there are
/// occurrences, empty pieces included.
pub open spec fn split(s: Seq<char>, c: char) -> Seq<Seq<char>>
    decreases s.len(),
{
    let i = find_from(s, c, 0);
    if 0 <= i < s.len() {
        seq![s.subrange(0, i)] + split(s.subrange(i + 1, s.len() as int), c)
    } else {
        seq![s]
    }
}

/// The texts that a vector of character vectors holds.
pub open spec fn texts(v: Seq<Vec<char>>) -> Seq<Seq<char>> {
    Seq::new(v.len(), |i: int| v[i]@)
}

/// The pieces of `v` between the occurrences of `c`.
pub fn split_char(v: &Vec<char>, c: char) -> (r: Vec<Vec<char>>)
    ensures
        texts(r@) == split(v@, c),
        r@.len() >= 1,
{
    let mut out: Vec<Vec<char>> = Vec::new();
    let mut start: usize = 0;
    let n = v.len();
    proof {
        assert(v@.subrange(0, n as int) =~= v@);
    }
    loop
        invariant
            n == v@.len(),
            start <= n,
            texts(out@) + split(v@.subrange(start as int, n as int), c) == split(v@, c),
        decreases n - start,
    {
        let i = find_char(v, c, start);
        let ghost rest = v@.subrange(start as int, n as int);
        proof {
            lemma_find_from(v@, c, start as int);
            lemma_find_from_is(rest, c, 0, i - start);
        }
        let piece = slice(v, start, i);
        let ghost before = texts(out@);
        out.push(piece);
        proof {
            assert(texts(out@) =~= before.push(v@.subrange(start as int, i as int)));
            assert(rest.subrange(0, i - start) =~= v@.subrange(start as int, i as int));
        }
        if i >= n {
            proof {
                assert(v@.subrange(start as int, i as int) =~= rest);
                assert(texts(out@) =~= before + seq![rest]);
            }
            return out;
        }
        proof {
            assert(rest.subrange(i - start + 1, rest.len() as int) =~= v@.subrange(
                i + 1,
                n as int,
            ));
            assert(texts(out@) + split(v@.subrange(i + 1, n as int), c) =~= before + split(
                rest,
                c,
            ));
        }
        start = i + 1;
    }
}

/// Whether `s` begins with `p`.
pub open spec fn starts_with(s: Seq<char>, p: Seq<char>) -> bool {
    p.len() <= s.len() && s.subrange(0, p.len() as int) == p
}

/// Whether `s` ends with `p`.
pub open spec fn ends_with(s: Seq<char>, p: Seq<char>) -> bool {
    p.len() <= s.len() && s.subrange(s.len() - p.len(), s.len() as int) == p
}

/// Whether `p` stands in `s` at position `at`.
pub open spec fn occurs_at(s: Seq<char>, p: Seq<char>, at: int) -> bool {
    0 <= at && at + p.len() <= s.len() && s.subrange(at, at + p.len()) == p
}

/// Whether `p` stands in `v` at position `at`.
pub fn matches_at(v: &Vec<char>, p: &Vec<char>, at: usize) -> (r: bool)
    ensures
        r == occurs_at(v@, p@, at as int),
{
    if at > v.len() || p.len() > v.len() - at {
        return false;
    }
    let mut i: usize = 0;
    while i < p.len()
        invariant
            i <= p@.len(),
            at + p@.len() <= v@.len() <= usize::MAX,
            v@.subrange(at as int, at + i) == p@.subrange(0, i as int),
        decreases p.len() - i,
    {
        if v[at + i] != p[i] {
            proof {
                if v@.subrange(at as int, at + p@.len()) == p@ {
                    assert(v@.subrange(at as int, at + p@.len())[i as int] == p@[i as int]);
                }
            }
            return false;
        }
        proof {
            assert(v@.subrange(at as int, at + i + 1) =~= v@.subrange(at as int, at + i).push(
                v@[at + i],
            ));
            assert(p@.subrange(0, i + 1) =~= p@.subrange(0, i as int).push(p@[i as int]));
        }
        i += 1;
    }
    proof {
        assert(p@.subrange(0, p@.len() as int) =~= p@);
    }
    true
}

/// Whether `v` begins with the characters of `lit`.
pub fn has_prefix(v: &Vec<char>, lit: &str) -> (r: bool)
    ensures
        r == starts_with(v@, lit@),
{
    let p = to_chars(lit);
    matches_at(v, &p, 0)
}

/// The first position at or after `from` at which `p` stands in `s`; the
/// length of `s` where it stands nowhere.
pub open spec fn find_sub_from(s: Seq<char>, p: Seq<char>, from: int) -> int
    decreases s.len() - from,
{
    if from < 0 || from >= s.len() {
        s.len() as int
    } else if occurs_at(s, p, from) {
        from
    } else {
        find_sub_from(s, p, from + 1)
    }
}

/// Whether `p` stands somewhere in `s`. (An empty `p` stands in every text
/// but the empty one is looked for at the positions of `s` only.)
pub open spec fn contains_sub(s: Seq<char>, p: Seq<char>) -> bool {
    find_sub_from(s, p, 0) < s.len()
}

/// The first position at or after `from` at which `p` stands; the length where none.
pub fn find_sub(v: &Vec<char>, p: &Vec<char>, from: usize) -> (r: usize)
    requires
        from <= v@.len(),
    ensures
        r == find_sub_from(v@, p@, from as int),
        from <= r <= v@.len(),
        r < v@.len() ==> occurs_at(v@, p@, r as int),
{
    let mut i: usize = from;
    while i < v.len()
        invariant
            from <= i <= v@.len(),
            find_sub_from(v@, p@, i as int) == find_sub_from(v@, p@, from as int),
        decreases v.len() - i,
    {
        if matches_at(v, p, i) {
            return i;
        }
        i += 1;
    }
    i
}

/// Whether the characters of `lit` stand somewhere in `v`.
pub fn has_sub(v: &Vec<char>, lit: &str) -> (r: bool)
    ensures
        r == contains_sub(v@, lit@),
{
    let p = to_chars(lit);
    find_sub(v, &p, 0) < v.len()
}

/// `s` without the characters at its start that `q` holds.
pub open spec fn trim_start_of(s: Seq<char>, q: Seq<char>) -> Seq<char>
    decreases s.len(),
{
    if s.len() > 0 && q.contains(s[0]) {
        trim_start_of(s.drop_first(), q)
    } else {
        s
    }
}

/// `s` without the characters at its end that `q` holds.
pub open spec fn trim_end_of(s: Seq<char>, q: Seq<char>) -> Seq<char>
    decreases s.len(),
{
    if s.len() > 0 && q.contains(s.last()) {
        trim_end_of(s.drop_last(), q)
    } else {
        s
    }
}

/// `s` without the characters of `q` at either end.
pub open spec fn trim_of(s: Seq<char>, q: Seq<char>) -> Seq<char> {
    trim_end_of(trim_start_of(s, q), q)
}

pub proof fn lemma_trim_start_of_is(s: Seq<char>, q: Seq<char>, n: int)
    requires
        0 <= n <= s.len(),
        forall|j: int| 0 <= j < n ==> q.contains(s[j]),
        n < s.len() ==> !q.contains(s[n]),
    ensures
        trim_start_of(s, q) == s.subrange(n, s.len() as int),
    decreases n,
{
    if n == 0 {
        assert(s.subrange(0, s.len() as int) =~= s);
    } else {
        let t = s.drop_first();
        assert forall|j: int| 0 <= j < n - 1 implies q.contains(t[j]) by {
            assert(t[j] == s[j + 1]);
        }
        lemma_trim_start_of_is(t, q, n - 1);
        assert(t.subrange(n - 1, t.len() as int) =~= s.subrange(n, s.len() as int));
    }
}

pub proof fn lemma_trim_end_of_is(s: Seq<char>, q: Seq<char>, n: int)
    requires
        0 <= n <= s.len(),
        forall|j: int| n <= j < s.len() ==> q.contains(s[j]),
        n > 0 ==> !q.contains(s[n - 1]),
    ensures
        trim_end_of(s, q) == s.subrange(0, n),
    decreases s.len() - n,
{
    if n == s.len() {
        assert(s.subrange(0, s.len() as int) =~= s);
    } else {
        let t = s.drop_last();
        lemma_trim_end_of_is(t, q, n);
        assert(t.subrange(0, n) =~= s.subrange(0, n));
    }
}

/// `v` without the leading characters (where `front`) and the trailing ones
/// (where `back`) that `set` holds.
pub fn strip_chars(v: &Vec<char>, set: &str, front: bool, back: bool) -> (r: Vec<char>)
    ensures
        r@ == {
            let a = if front {
                trim_start_of(v@, set@)
            } else {
                v@
            };
            if back {
                trim_end_of(a, set@)
            } else {
                a
            }
        },
{
    let q = to_chars(set);
    let n = v.len();
    let mut a: usize = 0;
    if front {
        while a < n && contains_char(&q, v[a])
            invariant
                a <= n == v@.len(),
                q@ == set@,
                forall|j: int| 0 <= j < a ==> q@.contains(v@[j]),
            decreases n - a,
        {
            a += 1;
        }
        proof {
            lemma_trim_start_of_is(v@, q@, a as int);
        }
    }
    let mut b: usize = n;
    if back {
        while b > a && contains_char(&q, v[b - 1])
            invariant
                a <= b <= n == v@.len(),
                q@ == set@,
                forall|j: int| b <= j < n ==> q@.contains(v@[j]),
            decreases b,
        {
            b -= 1;
        }
        proof {
            let t = v@.subrange(a as int, n as int);
            assert forall|j: int| b - a <= j < t.len() implies q@.contains(t[j]) by {
                assert(t[j] == v@[j + a]);
            }
            lemma_trim_end_of_is(t, q@, b - a);
            assert(t.subrange(0, b - a) =~= v@.subrange(a as int, b as int));
        }
    }
    proof {
        assert(v@.subrange(0, n as int) =~= v@);
    }
    slice(v, a, b)
}

/// The texts of `parts` with `sep` between each two.
pub open spec fn join(parts: Seq<Seq<char>>, sep: Seq<char>) -> Seq<char>
    decreases parts.len(),
{
    if parts.len() == 0 {
        Seq::empty()
    } else if parts.len() == 1 {
        parts[0]
    } else {
        join(parts.drop_last(), sep) + sep + parts.last()
    }
}

/// The digits of `n` in base ten, without leading zeros (`0` for zero).
pub open spec fn decimal(n: nat) -> Seq<char>
    decreases n,
{
    if n < 10 {
        seq![digit_char(n)]
    } else {
        decimal(n / 10).push(digit_char(n % 10))
    }
}

/// The character of a digit below ten.
pub open spec fn digit_char(d: nat) -> char {
    if d == 0 {
        '0'
    } else if d == 1 {
        '1'
    } else if d == 2 {
        '2'
    } else if d == 3 {
        '3'
    } else if d == 4 {
        '4'
    } else if d == 5 {
        '5'
    } else if d == 6 {
        '6'
    } else if d == 7 {
        '7'
    } else if d == 8 {
        '8'
    } else {
        '9'
    }
}

fn digit_of(d: usize) -> (r: char)
    requires
        d < 10,
    ensures
        r == digit_char(d as nat),
{
    if d == 0 {
        '0'
    } else if d == 1 {
        '1'
    } else if d == 2 {
        '2'
    } else if d == 3 {
        '3'
    } else if d == 4 {
        '4'
    } else if d == 5 {
        '5'
    } else if d == 6 {
        '6'
    } else if d == 7 {
        '7'
    } else if d == 8 {
        '8'
    } else {
        '9'
    }
}

/// The decimal digits of `n`.
pub fn decimal_chars(n: usize) -> (r: Vec<char>)
    ensures
        r@ == decimal(n as nat),
    decreases n,
{
    if n < 10 {
        let mut out: Vec<char> = Vec::new();
        out.push(digit_of(n));
        out
    } else {
        let mut out = decimal_chars(n / 10);
        out.push(digit_of(n % 10));
        out
    }
}

/// Appends the characters of `w` to `v`.
pub fn push_all(v: &mut Vec<char>, w: &Vec<char>)
    ensures
        final(v)@ == old(v)@ + w@,
{
    let mut i: usize = 0;
    while i < w.len()
        invariant
            i <= w@.len(),
            v@ == old(v)@ + w@.subrange(0, i as int),
        decreases w.len() - i,
    {
        v.push(w[i]);
        proof {
            assert(w@.subrange(0, i + 1) =~= w@.subrange(0, i as int).push(w@[i as int]));
            assert(old(v)@ + w@.subrange(0, i + 1) =~= (old(v)@ + w@.subrange(0, i as int)).push(
                w@[i as int],
            ));
        }
        i += 1;
    }
    proof {
        assert(w@.subrange(0, w@.len() as int) =~= w@);
    }
}

/// Each piece without the white space at its ends.
pub open spec fn trimmed(pieces: Seq<Seq<char>>) -> Seq<Seq<char>> {
    Seq::new(pieces.len(), |i: int| trim(pieces[i]))
}

/// The pieces that are not empty once the white space at their ends is
/// removed, so trimmed and in order.
pub open spec fn trimmed_nonempty(pieces: Seq<Seq<char>>) -> Seq<Seq<char>>
    decreases pieces.len(),
{
    if pieces.len() == 0 {
        Seq::empty()
    } else {
        let rest = trimmed_nonempty(pieces.drop_last());
        let t = trim(pieces.last());
        if t.len() > 0 {
            rest.push(t)
        } else {
            rest
        }
    }
}

/// The pieces of `v` between the occurrences of `c`, each trimmed; with
/// `keep_empty` unset, those that are empty after trimming are left out.
pub fn split_trimmed(v: &Vec<char>, c: char, keep_empty: bool) -> (r: Vec<String>)
    ensures
        r.deep_view() == if keep_empty {
            trimmed(split(v@, c))
        } else {
            trimmed_nonempty(split(v@, c))
        },
{
    let pieces = split_char(v, c);
    let mut out: Vec<String> = Vec::new();
    let mut i: usize = 0;
    proof {
        assert(texts(pieces@).take(0) =~= Seq::empty());
        assert(out.deep_view() =~= Seq::empty());
    }
    while i < pieces.len()
        invariant
            i <= pieces@.len(),
            texts(pieces@) == split(v@, c),
            out.deep_view() == if keep_empty {
                trimmed(texts(pieces@).take(i as int))
            } else {
                trimmed_nonempty(texts(pieces@).take(i as int))
            },
        decreases pieces.len() - i,
    {
        let t = trim_chars(&pieces[i]);
        let ghost before = out.deep_view();
        proof {
            assert(texts(pieces@).take(i + 1).drop_last() =~= texts(pieces@).take(i as int));
            assert(texts(pieces@).take(i + 1).last() == pieces@[i as int]@);
        }
        if keep_empty || t.len() > 0 {
            out.push(from_chars(&t));
            proof {
                assert(out.deep_view() =~= before.push(t@));
                if keep_empty {
                    assert(trimmed(texts(pieces@).take(i + 1)) =~= trimmed(
                        texts(pieces@).take(i as int),
                    ).push(t@));
                }
            }
        }
        i += 1;
    }
    proof {
        assert(texts(pieces@).take(pieces@.len() as int) =~= texts(pieces@));
    }
    out
}

/// The text of an optional character vector.
pub open spec fn opt_text(o: Option<Vec<char>>) -> Option<Seq<char>> {
    match o {
        Some(v) => Some(v@),
        None => None,
    }
}

/// The string of an optional character vector.
pub fn opt_string(o: &Option<Vec<char>>) -> (r: Option<String>)
    ensures
        r.deep_view() == opt_text(*o),
{
    match o {
        Some(v) => Some(from_chars(v)),
        None => None,
    }
}

} // verus!
