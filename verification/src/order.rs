//! The order of texts, character by character, and lists of texts kept in
//! that order.

use vstd::prelude::*;
use crate::text::to_chars;

verus! {

/// Whether `a` comes before `b`: at the first place where they differ `a`
/// has the smaller character, or `a` ends there and `b` goes on.
pub open spec fn before(a: Seq<char>, b: Seq<char>) -> bool
    decreases a.len(),
{
    if b.len() == 0 {
        false
    } else if a.len() == 0 {
        true
    } else if a[0] != b[0] {
        a[0] < b[0]
    } else {
        before(a.drop_first(), b.drop_first())
    }
}

/// Whether the text in `a` comes before the text in `b`.
pub fn text_before(a: &str, b: &str) -> (r: bool)
    ensures
        r == before(a@, b@),
{
    let x = to_chars(a);
    let y = to_chars(b);
    let mut i: usize = 0;
    proof {
        assert(x@.subrange(0, x@.len() as int) =~= x@);
        assert(y@.subrange(0, y@.len() as int) =~= y@);
    }
    loop
        invariant
            i <= x@.len(),
            i <= y@.len(),
            x@ == a@,
            y@ == b@,
            before(x@.subrange(i as int, x@.len() as int), y@.subrange(i as int, y@.len() as int))
                == before(x@, y@),
        decreases x@.len() - i,
    {
        if i >= y.len() {
            return false;
        }
        if i >= x.len() {
            return true;
        }
        if x[i] != y[i] {
            return x[i] < y[i];
        }
        proof {
            let p = x@.subrange(i as int, x@.len() as int);
            let q = y@.subrange(i as int, y@.len() as int);
            assert(p.drop_first() =~= x@.subrange(i + 1, x@.len() as int));
            assert(q.drop_first() =~= y@.subrange(i + 1, y@.len() as int));
        }
        i += 1;
    }
}

/// No text comes before itself.
pub proof fn lemma_not_before_itself(a: Seq<char>)
    ensures
        !before(a, a),
    decreases a.len(),
{
    if a.len() > 0 {
        lemma_not_before_itself(a.drop_first());
    }
}

/// Of two different texts one comes before the other.
pub proof fn lemma_one_before(a: Seq<char>, b: Seq<char>)
    ensures
        a == b || before(a, b) || before(b, a),
        !(before(a, b) && before(b, a)),
    decreases a.len(),
{
    if a.len() > 0 && b.len() > 0 && a[0] == b[0] {
        lemma_one_before(a.drop_first(), b.drop_first());
        if a.drop_first() == b.drop_first() {
            assert(a =~= seq![a[0]] + a.drop_first());
            assert(b =~= seq![b[0]] + b.drop_first());
        }
    } else if a.len() == 0 && b.len() == 0 {
        assert(a =~= b);
    }
}

/// What comes before a text comes before all that the text comes before.
pub proof fn lemma_before_chain(a: Seq<char>, b: Seq<char>, c: Seq<char>)
    requires
        before(a, b),
        before(b, c),
    ensures
        before(a, c),
    decreases a.len(),
{
    if a.len() > 0 && b.len() > 0 && c.len() > 0 && a[0] == b[0] && b[0] == c[0] {
        lemma_before_chain(a.drop_first(), b.drop_first(), c.drop_first());
    }
}

/// The list with `x` put in at its place: before the first text from
/// `from` on that does not come before it; a text that is there already is
/// not put in again.
pub open spec fn inserted(list: Seq<Seq<char>>, x: Seq<char>, from: int) -> Seq<Seq<char>>
    decreases list.len() - from,
{
    if from < 0 || from >= list.len() {
        list.push(x)
    } else if before(list[from], x) {
        inserted(list, x, from + 1)
    } else if list[from] == x {
        list
    } else {
        list.insert(from, x)
    }
}

/// The texts from the `i`-th on put into `acc`, each at its place.
pub open spec fn sorted_from(list: Seq<Seq<char>>, i: int, acc: Seq<Seq<char>>) -> Seq<Seq<char>>
    decreases list.len() - i,
{
    if i < 0 || i >= list.len() {
        acc
    } else {
        sorted_from(list, i + 1, inserted(acc, list[i], 0))
    }
}

/// The texts of a list in order, each once.
pub open spec fn sorted_set(list: Seq<Seq<char>>) -> Seq<Seq<char>> {
    sorted_from(list, 0, Seq::empty())
}

/// Whether each text of the list comes before the next.
pub open spec fn ordered(list: Seq<Seq<char>>) -> bool {
    forall|i: int, j: int| 0 <= i < j < list.len() ==> before(list[i], list[j])
}

/// Putting a text into an ordered list leaves the list ordered.
pub proof fn lemma_inserted_ordered(list: Seq<Seq<char>>, x: Seq<char>, from: int)
    requires
        ordered(list),
        0 <= from <= list.len(),
        forall|k: int| 0 <= k < from ==> before(list[k], x),
    ensures
        ordered(inserted(list, x, from)),
    decreases list.len() - from,
{
    if from >= list.len() {
        let after = list.push(x);
        assert forall|i: int, j: int| 0 <= i < j < after.len() implies before(
            after[i],
            after[j],
        ) by {
            if j < list.len() {
                assert(after[i] == list[i] && after[j] == list[j]);
            } else {
                assert(after[i] == list[i]);
            }
        }
    } else if before(list[from], x) {
        lemma_inserted_ordered(list, x, from + 1);
    } else if list[from] == x {
    } else {
        let after = list.insert(from, x);
        lemma_one_before(list[from], x);
        assert forall|i: int, j: int| 0 <= i < j < after.len() implies before(
            after[i],
            after[j],
        ) by {
            if j < from {
                assert(after[i] == list[i] && after[j] == list[j]);
            } else if j == from {
                assert(after[i] == list[i]);
            } else if i < from {
                assert(after[i] == list[i] && after[j] == list[j - 1]);
            } else if i == from {
                assert(after[j] == list[j - 1]);
                if j - 1 > from {
                    lemma_before_chain(x, list[from], list[j - 1]);
                }
            } else {
                assert(after[i] == list[i - 1] && after[j] == list[j - 1]);
            }
        }
    }
}

/// The texts put in order are ordered.
pub proof fn lemma_sorted_ordered(list: Seq<Seq<char>>, i: int, acc: Seq<Seq<char>>)
    requires
        ordered(acc),
    ensures
        ordered(sorted_from(list, i, acc)),
    decreases list.len() - i,
{
    if 0 <= i < list.len() {
        lemma_inserted_ordered(acc, list[i], 0);
        lemma_sorted_ordered(list, i + 1, inserted(acc, list[i], 0));
    }
}

/// Puts `x` into an ordered list at its place, unless it is there already.
pub fn insert_text(list: &mut Vec<String>, x: String)
    ensures
        final(list).deep_view() == inserted(old(list).deep_view(), x@, 0),
{
    let ghost before_view = list.deep_view();
    let mut i: usize = 0;
    while i < list.len()
        invariant
            i <= list@.len(),
            list.deep_view() == before_view,
            before_view == old(list).deep_view(),
            inserted(before_view, x@, i as int) == inserted(before_view, x@, 0),
        decreases list.len() - i,
    {
        proof {
            assert(before_view[i as int] == list@[i as int]@);
        }
        if text_before(list[i].as_str(), x.as_str()) {
            i += 1;
        } else if crate::text::str_eq(list[i].as_str(), x.as_str()) {
            return ;
        } else {
            list.insert(i, x);
            proof {
                assert(list.deep_view() =~= before_view.insert(i as int, x@));
            }
            return ;
        }
    }
    list.push(x);
    proof {
        assert(list.deep_view() =~= before_view.push(x@));
    }
}

/// The texts of a list in order, each once.
pub fn sort_texts(list: &Vec<String>) -> (r: Vec<String>)
    ensures
        r.deep_view() == sorted_set(list.deep_view()),
        ordered(r.deep_view()),
{
    let mut out: Vec<String> = Vec::new();
    let mut i: usize = 0;
    proof {
        assert(out.deep_view() =~= Seq::empty());
    }
    while i < list.len()
        invariant
            i <= list@.len(),
            sorted_from(list.deep_view(), i as int, out.deep_view()) == sorted_set(
                list.deep_view(),
            ),
        decreases list.len() - i,
    {
        proof {
            assert(list.deep_view()[i as int] == list@[i as int]@);
        }
        insert_text(&mut out, list[i].clone());
        i += 1;
    }
    proof {
        lemma_sorted_ordered(list.deep_view(), 0, Seq::empty());
    }
    out
}

/// The list with `x` put in before the first text from `from` on that
/// does not come before it.
pub open spec fn placed(list: Seq<Seq<char>>, x: Seq<char>, from: int) -> Seq<Seq<char>>
    decreases list.len() - from,
{
    if from < 0 || from >= list.len() {
        list.push(x)
    } else if before(list[from], x) {
        placed(list, x, from + 1)
    } else {
        list.insert(from, x)
    }
}

/// The texts from the `i`-th on put into `acc`, each at its place.
pub open spec fn in_order_from(list: Seq<Seq<char>>, i: int, acc: Seq<Seq<char>>) -> Seq<
    Seq<char>,
>
    decreases list.len() - i,
{
    if i < 0 || i >= list.len() {
        acc
    } else {
        in_order_from(list, i + 1, placed(acc, list[i], 0))
    }
}

/// The texts of a list in order; a text that stands in the list several
/// times does so in the result.
pub open spec fn in_order(list: Seq<Seq<char>>) -> Seq<Seq<char>> {
    in_order_from(list, 0, Seq::empty())
}

/// Puts `x` into an ordered list at its place.
pub fn place_text(list: &mut Vec<String>, x: String)
    ensures
        final(list).deep_view() == placed(old(list).deep_view(), x@, 0),
        final(list)@.len() == old(list)@.len() + 1,
{
    let ghost before_view = list.deep_view();
    let mut i: usize = 0;
    while i < list.len()
        invariant
            i <= list@.len(),
            list.deep_view() == before_view,
            list@.len() == old(list)@.len(),
            before_view == old(list).deep_view(),
            placed(before_view, x@, i as int) == placed(before_view, x@, 0),
        decreases list.len() - i,
    {
        proof {
            assert(before_view[i as int] == list@[i as int]@);
        }
        if text_before(list[i].as_str(), x.as_str()) {
            i += 1;
        } else {
            list.insert(i, x);
            proof {
                assert(list.deep_view() =~= before_view.insert(i as int, x@));
            }
            return ;
        }
    }
    list.push(x);
    proof {
        assert(list.deep_view() =~= before_view.push(x@));
    }
}

/// The texts of a list in order.
pub fn order_texts(list: &Vec<String>) -> (r: Vec<String>)
    ensures
        r.deep_view() == in_order(list.deep_view()),
        r@.len() == list@.len(),
{
    let mut out: Vec<String> = Vec::new();
    let mut i: usize = 0;
    proof {
        assert(out.deep_view() =~= Seq::empty());
    }
    while i < list.len()
        invariant
            i <= list@.len(),
            out@.len() == i,
            in_order_from(list.deep_view(), i as int, out.deep_view()) == in_order(
                list.deep_view(),
            ),
        decreases list.len() - i,
    {
        proof {
            assert(list.deep_view()[i as int] == list@[i as int]@);
        }
        place_text(&mut out, list[i].clone());
        i += 1;
    }
    out
}

} // verus!
