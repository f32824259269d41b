//! Facts about picking items out of a list.

use vstd::prelude::*;

verus! {

/// Filtering one item more either appends that item or changes nothing.
pub proof fn lemma_filter_next<A>(items: Seq<A>, next: int, keeps: spec_fn(A) -> bool)
    requires
        0 <= next < items.len(),
    ensures
        items.take(next + 1).filter(keeps) == (if keeps(items[next]) {
            items.take(next).filter(keeps).push(items[next])
        } else {
            items.take(next).filter(keeps)
        }),
{
    reveal(Seq::filter);
    assert(items.take(next + 1).drop_last() == items.take(next));
}

/// A list with one item more is filtered to the same, with that item at the end
/// where it is kept; of nothing, nothing is kept.
pub proof fn lemma_filter_push<A>(items: Seq<A>, item: A, keeps: spec_fn(A) -> bool)
    ensures
        items.push(item).filter(keeps) == (if keeps(item) {
            items.filter(keeps).push(item)
        } else {
            items.filter(keeps)
        }),
        items.len() == 0 ==> items.filter(keeps).len() == 0,
{
    reveal(Seq::filter);
    assert(items.push(item).drop_last() == items);
}

/// The first item that satisfies `wanted`, if any does.
pub open spec fn first<A>(items: Seq<A>, wanted: spec_fn(A) -> bool) -> Option<A>
    decreases items.len(),
{
    if items.len() == 0 {
        None
    } else if wanted(items[0]) {
        Some(items[0])
    } else {
        first(items.skip(1), wanted)
    }
}

/// The item at `found` is the first that satisfies `wanted` when none before it
/// does.
pub proof fn lemma_first_at<A>(items: Seq<A>, wanted: spec_fn(A) -> bool, found: int)
    requires
        0 <= found < items.len(),
        wanted(items[found]),
        forall|i: int| 0 <= i < found ==> !wanted(#[trigger] items[i]),
    ensures
        first(items, wanted) == Some(items[found]),
    decreases items.len(),
{
    if found > 0 {
        assert(!wanted(items[0]));
        assert forall|i: int| 0 <= i < found - 1 implies !wanted(#[trigger] items.skip(1)[i]) by {
            assert(items.skip(1)[i] == items[i + 1]);
        }
        lemma_first_at(items.skip(1), wanted, found - 1);
    }
}

/// There is no first item where none satisfies `wanted`.
pub proof fn lemma_first_none<A>(items: Seq<A>, wanted: spec_fn(A) -> bool)
    requires
        forall|i: int| 0 <= i < items.len() ==> !wanted(#[trigger] items[i]),
    ensures
        first(items, wanted) is None,
    decreases items.len(),
{
    if items.len() > 0 {
        assert forall|i: int| 0 <= i < items.skip(1).len() implies !wanted(
            #[trigger] items.skip(1)[i],
        ) by {
            assert(items.skip(1)[i] == items[i + 1]);
        }
        lemma_first_none(items.skip(1), wanted);
    }
}

/// What is found first satisfies `wanted`, and nothing before it does; where
/// nothing is found, nothing does.
pub proof fn lemma_first<A>(items: Seq<A>, wanted: spec_fn(A) -> bool)
    ensures
        match first(items, wanted) {
            Some(found) => exists|at: int|
                0 <= at < items.len() && #[trigger] items[at] == found && wanted(found)
                    && forall|i: int| 0 <= i < at ==> !wanted(#[trigger] items[i]),
            None => forall|i: int| 0 <= i < items.len() ==> !wanted(#[trigger] items[i]),
        },
    decreases items.len(),
{
    if items.len() > 0 {
        if wanted(items[0]) {
            assert(items[0] == first(items, wanted)->0);
        } else {
            let rest = items.skip(1);
            lemma_first(rest, wanted);
            if let Some(found) = first(items, wanted) {
                let at = choose|at: int|
                    0 <= at < rest.len() && #[trigger] rest[at] == found && wanted(found)
                        && forall|i: int| 0 <= i < at ==> !wanted(#[trigger] rest[i]);
                assert(items[at + 1] == found);
                assert forall|i: int| 0 <= i < at + 1 implies !wanted(#[trigger] items[i]) by {
                    if i > 0 {
                        assert(rest[i - 1] == items[i]);
                    }
                }
            } else {
                assert forall|i: int| 0 <= i < items.len() implies !wanted(#[trigger] items[i]) by {
                    if i > 0 {
                        assert(rest[i - 1] == items[i]);
                    }
                }
            }
        }
    }
}

/// What `term` comes to over the first `count` numbers.
pub open spec fn total_of(count: int, term: spec_fn(int) -> int) -> int
    decreases count,
{
    if count <= 0 {
        0
    } else {
        total_of(count - 1, term) + term(count - 1)
    }
}

/// Numbers for which there is nothing to add do not change a total.
pub proof fn lemma_total_stays(count: int, more: int, term: spec_fn(int) -> int)
    requires
        0 <= count <= more,
        forall|i: int| count <= i < more ==> #[trigger] term(i) == 0,
    ensures
        total_of(more, term) == total_of(count, term),
    decreases more,
{
    if count < more {
        lemma_total_stays(count, more - 1, term);
    }
}

/// Where an item goes in a list that is sorted by `le`: behind everything that
/// may stand before it.
pub open spec fn place<A>(items: Seq<A>, le: spec_fn(A, A) -> bool, item: A) -> int
    decreases items.len(),
{
    if items.len() == 0 || le(items.last(), item) {
        items.len() as int
    } else {
        place(items.drop_last(), le, item)
    }
}

/// A list sorted by `le`; of items that may stand either way round, the one
/// that came first stays first.
pub open spec fn sorted<A>(items: Seq<A>, le: spec_fn(A, A) -> bool) -> Seq<A>
    decreases items.len(),
{
    if items.len() == 0 {
        items
    } else {
        let before = sorted(items.drop_last(), le);
        before.insert(place(before, le, items.last()), items.last())
    }
}

/// Any two items can be compared, and what stands before what stands before an
/// item stands before the item.
pub open spec fn total_order<A>(le: spec_fn(A, A) -> bool) -> bool {
    &&& forall|a: A, b: A| #[trigger] le(a, b) || le(b, a)
    &&& forall|a: A, b: A, c: A| #[trigger] le(a, b) && #[trigger] le(b, c) ==> le(a, c)
}

/// Every item of a list may stand before every later one.
pub open spec fn in_order<A>(items: Seq<A>, le: spec_fn(A, A) -> bool) -> bool {
    forall|i: int, j: int| 0 <= i < j < items.len() ==> le(#[trigger] items[i], #[trigger] items[j])
}

pub proof fn lemma_place<A>(items: Seq<A>, le: spec_fn(A, A) -> bool, item: A)
    ensures
        0 <= place(items, le, item) <= items.len(),
        place(items, le, item) > 0 ==> le(items[place(items, le, item) - 1], item),
        forall|i: int|
            place(items, le, item) <= i < items.len() ==> !le(#[trigger] items[i], item),
    decreases items.len(),
{
    if items.len() > 0 && !le(items.last(), item) {
        lemma_place(items.drop_last(), le, item);
        assert forall|i: int| place(items, le, item) <= i < items.len() implies !le(
            #[trigger] items[i],
            item,
        ) by {
            if i < items.len() - 1 {
                assert(items.drop_last()[i] == items[i]);
            }
        }
    }
}

pub proof fn lemma_place_at<A>(items: Seq<A>, le: spec_fn(A, A) -> bool, item: A, at: int)
    requires
        0 <= at <= items.len(),
        at > 0 ==> le(items[at - 1], item),
        forall|i: int| at <= i < items.len() ==> !le(#[trigger] items[i], item),
    ensures
        place(items, le, item) == at,
    decreases items.len(),
{
    if at < items.len() {
        assert(items.last() == items[items.len() - 1]);
        lemma_place_at(items.drop_last(), le, item, at);
    }
}

/// A sorted list is in order and holds what the list held, each item as often.
pub proof fn lemma_sorted<A>(items: Seq<A>, le: spec_fn(A, A) -> bool)
    requires
        total_order(le),
    ensures
        in_order(sorted(items, le), le),
        sorted(items, le).len() == items.len(),
        sorted(items, le).to_multiset() == items.to_multiset(),
    decreases items.len(),
{
    if items.len() > 0 {
        let rest = items.drop_last();
        let last = items.last();
        lemma_sorted(rest, le);
        let before = sorted(rest, le);
        let at = place(before, le, last);
        lemma_place(before, le, last);
        let after = before.insert(at, last);
        assert forall|i: int, j: int| 0 <= i < j < after.len() implies le(
            #[trigger] after[i],
            #[trigger] after[j],
        ) by {
            if j == at {
                if i < at - 1 {
                    assert(le(before[i], before[at - 1]));
                }
            } else if i == at {
                assert(!le(before[j - 1], last));
                assert(le(last, before[j - 1]));
            }
        }
        assert(items == rest.push(last));
        let head = before.take(at);
        let tail = before.skip(at);
        assert(before == head + tail);
        assert(after == head.push(last) + tail);
        vstd::seq_lib::lemma_multiset_commutative(head, tail);
        vstd::seq_lib::lemma_multiset_commutative(head.push(last), tail);
        head.to_multiset_ensures();
        rest.to_multiset_ensures();
        assert(after.to_multiset() =~= before.to_multiset().insert(last));
        assert(items.to_multiset() =~= rest.to_multiset().insert(last));
    }
}

} // verus!
