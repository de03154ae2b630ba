//! Texts in alphabetical order.

use vstd::prelude::*;

use crate::ids;
use crate::text::chars_of;

verus! {

/// Whether a text comes before another, by the code points of their characters.
pub open spec fn text_before(a: Seq<char>, b: Seq<char>) -> bool
    decreases a.len(),
{
    if b.len() == 0 {
        false
    } else if a.len() == 0 {
        true
    } else if a[0] != b[0] {
        (a[0] as int) < (b[0] as int)
    } else {
        text_before(a.drop_first(), b.drop_first())
    }
}

/// Every text comes before the next ones.
pub open spec fn is_sorted(list: Seq<Seq<char>>) -> bool {
    forall|i: int, j: int| 0 <= i < j < list.len() ==> text_before(list[i], list[j])
}

/// Of two texts, one comes first unless they are the same.
pub proof fn law_text_order_is_total(a: Seq<char>, b: Seq<char>)
    ensures
        text_before(a, b) || text_before(b, a) || a == b,
        !(text_before(a, b) && text_before(b, a)),
        !text_before(a, a),
    decreases a.len(),
{
    if a.len() > 0 && b.len() > 0 && a[0] == b[0] {
        law_text_order_is_total(a.drop_first(), b.drop_first());
        if a.drop_first() == b.drop_first() {
            assert(a =~= seq![a[0]] + a.drop_first());
            assert(b =~= seq![b[0]] + b.drop_first());
        }
    }
    if a.len() > 0 {
        law_text_order_is_total(a.drop_first(), a.drop_first());
    }
    if a.len() == 0 && b.len() == 0 {
        assert(a =~= b);
    }
}

/// What comes before a text comes before what the text comes before.
pub proof fn law_text_order_is_transitive(a: Seq<char>, b: Seq<char>, c: Seq<char>)
    requires
        text_before(a, b),
        text_before(b, c),
    ensures
        text_before(a, c),
    decreases a.len(),
{
    if a.len() > 0 && a[0] == b[0] && b[0] == c[0] {
        law_text_order_is_transitive(a.drop_first(), b.drop_first(), c.drop_first());
    }
}

/// Whether a text comes before another.
pub fn comes_before(a: &str, b: &str) -> (before: bool)
    ensures
        before == text_before(a@, b@),
{
    let left = chars_of(a);
    let right = chars_of(b);
    let mut i: usize = 0;
    assert(a@.skip(0) =~= a@);
    assert(b@.skip(0) =~= b@);
    while i < left.len() && i < right.len()
        invariant
            left@ == a@,
            right@ == b@,
            i <= left@.len(),
            i <= right@.len(),
            text_before(a@, b@) == text_before(a@.skip(i as int), b@.skip(i as int)),
        decreases left.len() - i,
    {
        assert(a@.skip(i as int).drop_first() =~= a@.skip(i as int + 1));
        assert(b@.skip(i as int).drop_first() =~= b@.skip(i as int + 1));
        if left[i] != right[i] {
            let l: char = left[i];
            let r: char = right[i];
            return l < r;
        }
        i += 1;
    }
    i < right.len()
}

/// Puts a text in its place among sorted ones, unless it is there already.
pub fn insert_sorted(list: &mut Vec<String>, entry: String)
    requires
        is_sorted(ids::texts(old(list)@)),
    ensures
        is_sorted(ids::texts(final(list)@)),
        ids::texts(final(list)@).to_set() == ids::texts(old(list)@).to_set().insert(entry@),
{
    let ghost before = ids::texts(list@);
    let mut at: usize = 0;
    while at < list.len() && comes_before(&list[at], &entry)
        invariant
            at <= list@.len(),
            list@ == old(list)@,
            before == ids::texts(list@),
            forall|j: int| 0 <= j < at ==> text_before(#[trigger] before[j], entry@),
        decreases list.len() - at,
    {
        at += 1;
    }
    if at < list.len() && *list[at].as_str() == *entry.as_str() {
        proof {
            assert(before[at as int] == entry@);
            assert(before.to_set().contains(entry@));
            assert(before.to_set().insert(entry@) =~= before.to_set());
        }
        return;
    }
    list.insert(at, entry);
    proof {
        let after = ids::texts(list@);
        assert(after =~= before.insert(at as int, entry@));
        if at < before.len() {
            law_text_order_is_total(before[at as int], entry@);
        }
        assert forall|i: int, j: int| 0 <= i < j < after.len() implies text_before(
            after[i],
            after[j],
        ) by {
            if i == at {
                if j == at + 1 {
                    assert(after[j] == before[at as int]);
                } else {
                    assert(after[j] == before[j - 1]);
                    law_text_order_is_transitive(entry@, before[at as int], before[j - 1]);
                }
            } else if j == at {
                assert(after[i] == before[i]);
            } else {
                let i0 = if i < at {
                    i
                } else {
                    i - 1
                };
                let j0 = if j < at {
                    j
                } else {
                    j - 1
                };
                assert(text_before(before[i0], before[j0]));
            }
        }
        assert forall|x: Seq<char>| after.to_set().contains(x) <==> before.to_set().insert(
            entry@,
        ).contains(x) by {
            if before.contains(x) {
                let k = choose|k: int| 0 <= k < before.len() && before[k] == x;
                assert(after[if k < at { k } else { k + 1 }] == x);
            }
            assert(after[at as int] == entry@);
            if after.contains(x) {
                let k = choose|k: int| 0 <= k < after.len() && after[k] == x;
                if k != at {
                    assert(before[if k < at { k } else { k - 1 }] == x);
                }
            }
        }
        assert(after.to_set() =~= before.to_set().insert(entry@));
    }
}

} // verus!
