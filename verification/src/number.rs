//! Numbers as they are written: which texts are decimal numbers, and which
//! of them are integers that fit 64 bits.

use vstd::prelude::*;

verus! {

pub open spec fn is_digit(c: char) -> bool {
    '0' <= c && c <= '9'
}

/// An ASCII digit.
pub fn is_digit_char(c: char) -> (r: bool)
    ensures
        r == is_digit(c),
{
    c >= '0' && c <= '9'
}

/// The end of the run of digits that starts at `from`.
pub open spec fn digit_run(s: Seq<char>, from: int) -> int
    decreases s.len() - from,
{
    if 0 <= from < s.len() && is_digit(s[from]) {
        digit_run(s, from + 1)
    } else {
        from
    }
}

pub proof fn lemma_digit_run(s: Seq<char>, from: int)
    requires
        0 <= from <= s.len(),
    ensures
        from <= digit_run(s, from) <= s.len(),
        forall|j: int| from <= j < digit_run(s, from) ==> is_digit(s[j]),
        digit_run(s, from) < s.len() ==> !is_digit(s[digit_run(s, from)]),
    decreases s.len() - from,
{
    if from < s.len() && is_digit(s[from]) {
        lemma_digit_run(s, from + 1);
    }
}

pub proof fn lemma_digit_run_is(s: Seq<char>, from: int, to: int)
    requires
        0 <= from <= to <= s.len(),
        forall|j: int| from <= j < to ==> is_digit(s[j]),
        to < s.len() ==> !is_digit(s[to]),
    ensures
        digit_run(s, from) == to,
    decreases to - from,
{
    if from < to {
        lemma_digit_run_is(s, from + 1, to);
    }
}

fn skip_digits(v: &Vec<char>, from: usize) -> (r: usize)
    requires
        from <= v@.len(),
    ensures
        r == digit_run(v@, from as int),
        from <= r <= v@.len(),
{
    let mut i: usize = from;
    while i < v.len() && is_digit_char(v[i])
        invariant
            from <= i <= v@.len(),
            forall|j: int| from <= j < i ==> is_digit(v@[j]),
        decreases v.len() - i,
    {
        i += 1;
    }
    proof {
        lemma_digit_run_is(v@, from as int, i as int);
    }
    i
}

pub open spec fn is_sign(c: char) -> bool {
    c == '+' || c == '-'
}

/// The same letter, whatever its case.
pub open spec fn letter_is(c: char, lower: char, upper: char) -> bool {
    c == lower || c == upper
}

/// `inf`, `infinity` or `nan`, in any mix of upper and lower case.
pub open spec fn is_special(t: Seq<char>) -> bool {
    ||| (t.len() == 3 && letter_is(t[0], 'i', 'I') && letter_is(t[1], 'n', 'N') && letter_is(
        t[2],
        'f',
        'F',
    ))
    ||| (t.len() == 3 && letter_is(t[0], 'n', 'N') && letter_is(t[1], 'a', 'A') && letter_is(
        t[2],
        'n',
        'N',
    ))
    ||| (t.len() == 8 && letter_is(t[0], 'i', 'I') && letter_is(t[1], 'n', 'N') && letter_is(
        t[2],
        'f',
        'F',
    ) && letter_is(t[3], 'i', 'I') && letter_is(t[4], 'n', 'N') && letter_is(t[5], 'i', 'I')
        && letter_is(t[6], 't', 'T') && letter_is(t[7], 'y', 'Y'))
}

/// Digits with at most one point among them and at least one digit, then
/// optionally an exponent: `e` or `E`, a sign or none, and one digit or more.
pub open spec fn is_decimal(t: Seq<char>) -> bool {
    let i = digit_run(t, 0);
    let dot = i < t.len() && t[i] == '.';
    let j = if dot {
        digit_run(t, i + 1)
    } else {
        i
    };
    let count = if dot {
        j - 1
    } else {
        j
    };
    count > 0 && (j == t.len() || (letter_is(t[j], 'e', 'E') && {
        let k = if j + 1 < t.len() && is_sign(t[j + 1]) {
            j + 2
        } else {
            j + 1
        };
        digit_run(t, k) == t.len() && k < t.len()
    }))
}

/// Whether `s` is a number: an optional sign, then a decimal or one of the
/// special values. This is the set of texts that std reads as a 64-bit float.
pub open spec fn is_number(s: Seq<char>) -> bool {
    let a: int = if s.len() > 0 && is_sign(s[0]) {
        1
    } else {
        0
    };
    let t = s.subrange(a, s.len() as int);
    is_special(t) || is_decimal(t)
}

fn letter(c: char, lower: char, upper: char) -> (r: bool)
    ensures
        r == letter_is(c, lower, upper),
{
    c == lower || c == upper
}

fn special(t: &Vec<char>) -> (r: bool)
    ensures
        r == is_special(t@),
{
    if t.len() == 3 {
        (letter(t[0], 'i', 'I') && letter(t[1], 'n', 'N') && letter(t[2], 'f', 'F')) || (letter(
            t[0],
            'n',
            'N',
        ) && letter(t[1], 'a', 'A') && letter(t[2], 'n', 'N'))
    } else if t.len() == 8 {
        letter(t[0], 'i', 'I') && letter(t[1], 'n', 'N') && letter(t[2], 'f', 'F') && letter(
            t[3],
            'i',
            'I',
        ) && letter(t[4], 'n', 'N') && letter(t[5], 'i', 'I') && letter(t[6], 't', 'T')
            && letter(t[7], 'y', 'Y')
    } else {
        false
    }
}

fn decimal(t: &Vec<char>) -> (r: bool)
    ensures
        r == is_decimal(t@),
{
    let n = t.len();
    let i = skip_digits(t, 0);
    let dot = i < n && t[i] == '.';
    let j = if dot {
        skip_digits(t, i + 1)
    } else {
        i
    };
    let count = if dot {
        j - 1
    } else {
        j
    };
    if count == 0 {
        return false;
    }
    if j == n {
        return true;
    }
    if !letter(t[j], 'e', 'E') {
        return false;
    }
    let k = if j + 1 < n && (t[j + 1] == '+' || t[j + 1] == '-') {
        j + 2
    } else {
        j + 1
    };
    if k >= n {
        return false;
    }
    skip_digits(t, k) == n
}

/// Whether `s` is written as a number.
pub fn is_number_text(s: &Vec<char>) -> (r: bool)
    ensures
        r == is_number(s@),
{
    let a: usize = if s.len() > 0 && (s[0] == '+' || s[0] == '-') {
        1
    } else {
        0
    };
    let t = crate::text::slice(s, a, s.len());
    special(&t) || decimal(&t)
}

/// The value of a digit.
pub open spec fn digit_value(c: char) -> int {
    c as int - '0' as int
}

/// The number that a run of digits writes.
pub open spec fn digits_value(s: Seq<char>) -> int
    decreases s.len(),
{
    if s.len() == 0 {
        0
    } else {
        digits_value(s.drop_last()) * 10 + digit_value(s.last())
    }
}

/// The integer that `s` writes, where `s` is an optional sign and digits and
/// the integer fits 64 bits with a sign; `None` for every other text.
pub open spec fn integer_of(s: Seq<char>) -> Option<int> {
    let a: int = if s.len() > 0 && is_sign(s[0]) {
        1
    } else {
        0
    };
    let t = s.subrange(a, s.len() as int);
    if t.len() > 0 && digit_run(t, 0) == t.len() {
        let v = if s[0] == '-' {
            -digits_value(t)
        } else {
            digits_value(t)
        };
        if i64::MIN <= v <= i64::MAX {
            Some(v)
        } else {
            None
        }
    } else {
        None
    }
}

proof fn lemma_digits_value_grows(s: Seq<char>, n: int)
    requires
        0 <= n <= s.len(),
        forall|j: int| 0 <= j < s.len() ==> is_digit(s[j]),
    ensures
        0 <= digits_value(s.subrange(0, n)) <= digits_value(s),
    decreases s.len() - n,
{
    if n == s.len() {
        assert(s.subrange(0, n) =~= s);
        lemma_digits_value_nonneg(s);
    } else {
        let t = s.drop_last();
        assert(t.subrange(0, n) =~= s.subrange(0, n));
        lemma_digits_value_grows(t, n);
        lemma_digits_value_nonneg(t);
    }
}

proof fn lemma_digits_value_nonneg(s: Seq<char>)
    requires
        forall|j: int| 0 <= j < s.len() ==> is_digit(s[j]),
    ensures
        0 <= digits_value(s),
    decreases s.len(),
{
    if s.len() > 0 {
        lemma_digits_value_nonneg(s.drop_last());
    }
}

/// The integer that `s` writes, if it writes one that fits 64 bits.
pub fn parse_integer(s: &Vec<char>) -> (r: Option<i64>)
    ensures
        match r {
            Some(v) => integer_of(s@) == Some(v as int),
            None => integer_of(s@) is None,
        },
{
    let a: usize = if s.len() > 0 && (s[0] == '+' || s[0] == '-') {
        1
    } else {
        0
    };
    let negative = s.len() > 0 && s[0] == '-';
    let t = crate::text::slice(s, a, s.len());
    let n = t.len();
    if n == 0 || skip_digits(&t, 0) != n {
        return None;
    }
    proof {
        lemma_digit_run(t@, 0);
    }
    // the magnitude may reach 2^63 when the sign is `-`
    let limit: u64 = if negative {
        9223372036854775808
    } else {
        9223372036854775807
    };
    let mut acc: u64 = 0;
    let mut i: usize = 0;
    while i < n
        invariant
            i <= n == t@.len(),
            forall|j: int| 0 <= j < n ==> is_digit(t@[j]),
            acc as int == digits_value(t@.subrange(0, i as int)),
            acc <= limit,
            limit == if negative {
                9223372036854775808u64
            } else {
                9223372036854775807u64
            },
            negative == (s@.len() > 0 && s@[0] == '-'),
            a == if s@.len() > 0 && is_sign(s@[0]) {
                1usize
            } else {
                0usize
            },
            t@ == s@.subrange(a as int, s@.len() as int),
            digit_run(t@, 0) == t@.len(),
        decreases n - i,
    {
        let d: u64 = (t[i] as u32 - '0' as u32) as u64;
        proof {
            assert(t@.subrange(0, i + 1).drop_last() =~= t@.subrange(0, i as int));
            assert(t@.subrange(0, i + 1).last() == t@[i as int]);
            assert(is_digit(t@[i as int]));
            assert(d as int == digit_value(t@[i as int]));
            assert(d <= 9);
        }
        if acc > (limit - d) / 10 {
            proof {
                assert(acc as int * 10 + d > limit);
                assert(digits_value(t@.subrange(0, i + 1)) == acc as int * 10 + d);
                lemma_digits_value_grows(t@, i + 1);
                assert(digits_value(t@) > limit);
            }
            return None;
        }
        proof {
            assert(digits_value(t@.subrange(0, i + 1)) == acc as int * 10 + d);
        }
        acc = acc * 10 + d;
        i += 1;
    }
    proof {
        assert(t@.subrange(0, n as int) =~= t@);
    }
    if negative {
        if acc == 9223372036854775808 {
            Some(i64::MIN)
        } else {
            Some(-(acc as i64))
        }
    } else {
        Some(acc as i64)
    }
}

/// What a number stands for. A finite number is `0.d1 d2 ... x 10^magnitude`
/// with the digits `d1 d2 ...`, of which the first and the last are not
/// zero; zero has no digits.
pub enum NumberValue {
    NotANumber,
    Infinite { negative: bool },
    Finite { negative: bool, digits: Seq<char>, magnitude: int },
}

/// The number of zeros that `s` starts with from `from` on.
pub open spec fn zero_run(s: Seq<char>, from: int) -> int
    decreases s.len() - from,
{
    if 0 <= from < s.len() && s[from] == '0' {
        zero_run(s, from + 1)
    } else {
        from
    }
}

/// `s` without the zeros at its end.
pub open spec fn without_trailing_zeros(s: Seq<char>) -> Seq<char>
    decreases s.len(),
{
    if s.len() > 0 && s.last() == '0' {
        without_trailing_zeros(s.drop_last())
    } else {
        s
    }
}

/// The largest exponent that is told apart; larger ones count as this one.
pub open spec fn exponent_cap() -> int {
    1000000000000000000000
}

/// The number that a run of digits writes, but no more than the cap.
pub open spec fn capped_value(s: Seq<char>) -> int
    decreases s.len(),
{
    if s.len() == 0 {
        0
    } else {
        let v = capped_value(s.drop_last()) * 10 + digit_value(s.last());
        if v > exponent_cap() {
            exponent_cap()
        } else {
            v
        }
    }
}

/// The exponent that stands at `j` in `t`: zero where none is written.
pub open spec fn exponent_at(t: Seq<char>, j: int) -> int {
    if 0 <= j < t.len() && letter_is(t[j], 'e', 'E') {
        let negative = j + 1 < t.len() && t[j + 1] == '-';
        let k = if j + 1 < t.len() && is_sign(t[j + 1]) {
            j + 2
        } else {
            j + 1
        };
        if k <= t.len() {
            if negative {
                -capped_value(t.subrange(k, t.len() as int))
            } else {
                capped_value(t.subrange(k, t.len() as int))
            }
        } else {
            0
        }
    } else {
        0
    }
}

/// The value of a decimal written without a sign.
pub open spec fn decimal_value(t: Seq<char>, negative: bool) -> NumberValue {
    let i = digit_run(t, 0);
    let dot = i < t.len() && t[i] == '.';
    let j = if dot {
        digit_run(t, i + 1)
    } else {
        i
    };
    let all = if dot && i + 1 <= j <= t.len() {
        t.subrange(0, i) + t.subrange(i + 1, j)
    } else {
        t.subrange(0, i)
    };
    let lead = zero_run(all, 0);
    let digits = if 0 <= lead <= all.len() {
        without_trailing_zeros(all.subrange(lead, all.len() as int))
    } else {
        Seq::empty()
    };
    NumberValue::Finite {
        negative: negative,
        digits: digits,
        magnitude: if digits.len() == 0 {
            0
        } else {
            i - lead + exponent_at(t, j)
        },
    }
}

/// The value of a number as it is written.
pub open spec fn number_value(s: Seq<char>) -> NumberValue {
    let a: int = if s.len() > 0 && is_sign(s[0]) {
        1
    } else {
        0
    };
    let negative = s.len() > 0 && s[0] == '-';
    let t = s.subrange(a, s.len() as int);
    if is_special(t) {
        if letter_is(t[0], 'n', 'N') {
            NumberValue::NotANumber
        } else {
            NumberValue::Infinite { negative: negative }
        }
    } else {
        decimal_value(t, negative)
    }
}

/// Whether the digits `a` come before the digits `b`, digit by digit; a
/// run that another one continues comes before it.
pub open spec fn digits_less(a: Seq<char>, b: Seq<char>) -> bool
    decreases a.len(),
{
    if b.len() == 0 {
        false
    } else if a.len() == 0 {
        true
    } else if a[0] != b[0] {
        a[0] < b[0]
    } else {
        digits_less(a.drop_first(), b.drop_first())
    }
}

/// Whether one positive number is smaller than another, by magnitude and digits.
pub open spec fn smaller(m1: int, d1: Seq<char>, m2: int, d2: Seq<char>) -> bool {
    if d1.len() == 0 {
        d2.len() > 0
    } else if d2.len() == 0 {
        false
    } else {
        m1 < m2 || (m1 == m2 && digits_less(d1, d2))
    }
}

/// Whether `a` is less than `b`. Nothing is less or more than what is not
/// a number; zero is the same with either sign.
pub open spec fn value_less(a: NumberValue, b: NumberValue) -> bool {
    match (a, b) {
        (NumberValue::NotANumber, _) => false,
        (_, NumberValue::NotANumber) => false,
        (NumberValue::Infinite { negative: n1 }, NumberValue::Infinite { negative: n2 }) => n1
            && !n2,
        (NumberValue::Infinite { negative: n1 }, _) => n1,
        (_, NumberValue::Infinite { negative: n2 }) => !n2,
        (
            NumberValue::Finite { negative: n1, digits: d1, magnitude: m1 },
            NumberValue::Finite { negative: n2, digits: d2, magnitude: m2 },
        ) => {
            let neg1 = n1 && d1.len() > 0;
            let neg2 = n2 && d2.len() > 0;
            if neg1 && neg2 {
                smaller(m2, d2, m1, d1)
            } else if neg1 {
                true
            } else if neg2 {
                false
            } else {
                smaller(m1, d1, m2, d2)
            }
        },
    }
}

/// Whether the number written as `a` is less than the one written as `b`.
pub open spec fn number_less(a: Seq<char>, b: Seq<char>) -> bool {
    value_less(number_value(a), number_value(b))
}

/// A number in the form in which numbers are compared.
pub struct Scientific {
    pub special: u8,
    pub negative: bool,
    pub digits: Vec<char>,
    pub magnitude: i128,
}

impl Scientific {
    /// The value that the form stands for: `special` is 1 for what is not a
    /// number, 2 for an infinite one, else the number is finite.
    pub open spec fn value(&self) -> NumberValue {
        if self.special == 1 {
            NumberValue::NotANumber
        } else if self.special == 2 {
            NumberValue::Infinite { negative: self.negative }
        } else {
            NumberValue::Finite {
                negative: self.negative,
                digits: self.digits@,
                magnitude: self.magnitude as int,
            }
        }
    }
}

fn skip_zeros(v: &Vec<char>) -> (r: usize)
    ensures
        r == zero_run(v@, 0),
        r <= v@.len(),
{
    let mut i: usize = 0;
    while i < v.len() && v[i] == '0'
        invariant
            i <= v@.len(),
            zero_run(v@, i as int) == zero_run(v@, 0),
        decreases v.len() - i,
    {
        i += 1;
    }
    i
}

fn strip_trailing_zeros(v: &Vec<char>, from: usize) -> (r: Vec<char>)
    requires
        from <= v@.len(),
    ensures
        r@ == without_trailing_zeros(v@.subrange(from as int, v@.len() as int)),
{
    let mut end: usize = v.len();
    while end > from && v[end - 1] == '0'
        invariant
            from <= end <= v@.len(),
            without_trailing_zeros(v@.subrange(from as int, end as int))
                == without_trailing_zeros(v@.subrange(from as int, v@.len() as int)),
        decreases end,
    {
        proof {
            assert(v@.subrange(from as int, end as int).drop_last() =~= v@.subrange(
                from as int,
                end - 1,
            ));
        }
        end -= 1;
    }
    crate::text::slice(v, from, end)
}

fn read_capped(v: &Vec<char>, from: usize) -> (r: i128)
    requires
        from <= v@.len(),
        forall|j: int| from <= j < v@.len() ==> is_digit(v@[j]),
    ensures
        r == capped_value(v@.subrange(from as int, v@.len() as int)),
        0 <= r <= exponent_cap(),
{
    let mut acc: i128 = 0;
    let mut i: usize = from;
    proof {
        assert(v@.subrange(from as int, from as int) =~= Seq::empty());
    }
    while i < v.len()
        invariant
            from <= i <= v@.len(),
            forall|j: int| from <= j < v@.len() ==> is_digit(v@[j]),
            acc == capped_value(v@.subrange(from as int, i as int)),
            0 <= acc <= exponent_cap(),
        decreases v.len() - i,
    {
        let d: i128 = (v[i] as u32 - '0' as u32) as i128;
        proof {
            assert(is_digit(v@[i as int]));
            assert(v@.subrange(from as int, i + 1).drop_last() =~= v@.subrange(
                from as int,
                i as int,
            ));
            assert(d == digit_value(v@[i as int]));
        }
        acc = acc * 10 + d;
        if acc > 1000000000000000000000 {
            acc = 1000000000000000000000;
        }
        i += 1;
    }
    proof {
        assert(v@.subrange(from as int, v@.len() as int) =~= v@.subrange(
            from as int,
            i as int,
        ));
    }
    acc
}

fn read_exponent(t: &Vec<char>, j: usize) -> (r: i128)
    requires
        j <= t@.len(),
        is_decimal(t@),
        j == ({
            let i = digit_run(t@, 0);
            if i < t@.len() && t@[i] == '.' {
                digit_run(t@, i + 1)
            } else {
                i
            }
        }),
    ensures
        r == exponent_at(t@, j as int),
        -exponent_cap() <= r <= exponent_cap(),
{
    let n = t.len();
    if j < n && (t[j] == 'e' || t[j] == 'E') {
        let negative = j + 1 < n && t[j + 1] == '-';
        let k = if j + 1 < n && (t[j + 1] == '+' || t[j + 1] == '-') {
            j + 2
        } else {
            j + 1
        };
        proof {
            lemma_digit_run(t@, k as int);
        }
        let v = read_capped(t, k);
        if negative {
            -v
        } else {
            v
        }
    } else {
        0
    }
}

/// Brings a number, given as it is written, into the form in which numbers
/// are compared.
pub fn scientific(s: &Vec<char>) -> (r: Scientific)
    requires
        is_number(s@),
    ensures
        r.value() == number_value(s@),
{
    let a: usize = if s.len() > 0 && (s[0] == '+' || s[0] == '-') {
        1
    } else {
        0
    };
    let negative = s.len() > 0 && s[0] == '-';
    let t = crate::text::slice(s, a, s.len());
    if special(&t) {
        let kind: u8 = if t[0] == 'n' || t[0] == 'N' {
            1
        } else {
            2
        };
        return Scientific { special: kind, negative, digits: Vec::new(), magnitude: 0 };
    }
    let n = t.len();
    let i = skip_digits(&t, 0);
    let dot = i < n && t[i] == '.';
    let j = if dot {
        skip_digits(&t, i + 1)
    } else {
        i
    };
    let mut all = crate::text::slice(&t, 0, i);
    if dot {
        crate::text::push_all(&mut all, &crate::text::slice(&t, i + 1, j));
    }
    let lead = skip_zeros(&all);
    let digits = strip_trailing_zeros(&all, lead);
    let magnitude: i128 = if digits.len() == 0 {
        0
    } else {
        i as i128 - lead as i128 + read_exponent(&t, j)
    };
    Scientific { special: 0, negative, digits, magnitude }
}

fn compare_digits(a: &Vec<char>, b: &Vec<char>) -> (r: bool)
    ensures
        r == digits_less(a@, b@),
{
    let mut i: usize = 0;
    proof {
        assert(a@.subrange(0, a@.len() as int) =~= a@);
        assert(b@.subrange(0, b@.len() as int) =~= b@);
    }
    loop
        invariant
            i <= a@.len(),
            i <= b@.len(),
            digits_less(a@.subrange(i as int, a@.len() as int), b@.subrange(i as int, b@.len() as int))
                == digits_less(a@, b@),
        decreases a@.len() - i,
    {
        if i >= b.len() {
            return false;
        }
        if i >= a.len() {
            return true;
        }
        if a[i] != b[i] {
            return a[i] < b[i];
        }
        proof {
            let x = a@.subrange(i as int, a@.len() as int);
            let y = b@.subrange(i as int, b@.len() as int);
            assert(x.drop_first() =~= a@.subrange(i + 1, a@.len() as int));
            assert(y.drop_first() =~= b@.subrange(i + 1, b@.len() as int));
        }
        i += 1;
    }
}

fn is_smaller(m1: i128, d1: &Vec<char>, m2: i128, d2: &Vec<char>) -> (r: bool)
    ensures
        r == smaller(m1 as int, d1@, m2 as int, d2@),
{
    if d1.len() == 0 {
        d2.len() > 0
    } else if d2.len() == 0 {
        false
    } else {
        m1 < m2 || (m1 == m2 && compare_digits(d1, d2))
    }
}

/// Whether `a` is less than `b`.
pub fn less(a: &Scientific, b: &Scientific) -> (r: bool)
    ensures
        r == value_less(a.value(), b.value()),
{
    if a.special == 1 || b.special == 1 {
        false
    } else if a.special == 2 && b.special == 2 {
        a.negative && !b.negative
    } else if a.special == 2 {
        a.negative
    } else if b.special == 2 {
        !b.negative
    } else {
        let neg1 = a.negative && a.digits.len() > 0;
        let neg2 = b.negative && b.digits.len() > 0;
        if neg1 && neg2 {
            is_smaller(b.magnitude, &b.digits, a.magnitude, &a.digits)
        } else if neg1 {
            true
        } else if neg2 {
            false
        } else {
            is_smaller(a.magnitude, &a.digits, b.magnitude, &b.digits)
        }
    }
}

/// Whether the number written as `a` is less than the one written as `b`;
/// `false` where one of the two is not written as a number.
pub fn is_less(a: &str, b: &str) -> (r: bool)
    ensures
        r == (is_number(a@) && is_number(b@) && number_less(a@, b@)),
{
    let x = crate::text::to_chars(a);
    let y = crate::text::to_chars(b);
    if is_number_text(&x) && is_number_text(&y) {
        less(&scientific(&x), &scientific(&y))
    } else {
        false
    }
}

} // verus!
