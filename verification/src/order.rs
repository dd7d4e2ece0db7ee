//! Three-way order, stable sorting and duplicate removal.

use vstd::prelude::*;

verus! {

/// Outcome of a comparison.
#[derive(Debug, Clone, Copy, PartialEq, Eq, Structural)]
pub enum Order {
    /// The left value comes first.
    Less,
    /// Neither comes first.
    Equal,
    /// The right value comes first.
    Greater,
}

/// The order seen from the other side.
pub open spec fn flip(order: Order) -> Order {
    match order {
        Order::Less => Order::Greater,
        Order::Equal => Order::Equal,
        Order::Greater => Order::Less,
    }
}

/// The first order unless it is `Equal`, then the second.
pub open spec fn order_chain(first: Order, second: Order) -> Order {
    if first == Order::Equal {
        second
    } else {
        first
    }
}

/// Whether one order follows from two, as it does where things are ordered totally: what is equal
/// to something compares as that does, and what is below something is below what that is not
/// above.
pub open spec fn orders_follow(first: Order, second: Order, whole: Order) -> bool {
    &&& first == Order::Equal ==> whole == second
    &&& first == Order::Less && second != Order::Greater ==> whole == Order::Less
}

/// The order of two integers.
pub open spec fn int_order(left: int, right: int) -> Order {
    if left < right {
        Order::Less
    } else if left == right {
        Order::Equal
    } else {
        Order::Greater
    }
}

/// Orders two unsigned numbers.
pub fn order_u64(left: u64, right: u64) -> (order: Order)
    ensures
        order == int_order(left as int, right as int),
{
    if left < right {
        Order::Less
    } else if left == right {
        Order::Equal
    } else {
        Order::Greater
    }
}

/// `item` placed in `items` before the run of trailing items that must follow it.
pub open spec fn insert_by<T>(items: Seq<T>, item: T, after: spec_fn(T, T) -> bool) -> Seq<T>
    decreases items.len(),
{
    if items.len() == 0 || !after(items.last(), item) {
        items.push(item)
    } else {
        insert_by(items.drop_last(), item, after).push(items.last())
    }
}

/// `items` in stable sorted order: `after(a, b)` says that `a` must follow `b`.
pub open spec fn sort_by<T>(items: Seq<T>, after: spec_fn(T, T) -> bool) -> Seq<T>
    decreases items.len(),
{
    if items.len() == 0 {
        items
    } else {
        insert_by(sort_by(items.drop_last(), after), items.last(), after)
    }
}

/// The items for which `keep` holds, in order.
pub open spec fn kept<T>(items: Seq<T>, keep: spec_fn(T) -> bool) -> Seq<T>
    decreases items.len(),
{
    if items.len() == 0 {
        items
    } else if keep(items.last()) {
        kept(items.drop_last(), keep).push(items.last())
    } else {
        kept(items.drop_last(), keep)
    }
}

/// Filtering keeps exactly the items for which `keep` holds.
pub proof fn kept_members<T>(items: Seq<T>, keep: spec_fn(T) -> bool, item: T)
    ensures
        kept(items, keep).contains(item) <==> items.contains(item) && keep(item),
    decreases items.len(),
{
    if items.len() > 0 {
        let head = items.drop_last();
        kept_members(head, keep, item);
        if items.contains(item) && keep(item) {
            let i = choose|i: int| 0 <= i < items.len() && items[i] == item;
            if i < head.len() {
                assert(head[i] == item);
                let k = choose|k: int| 0 <= k < kept(head, keep).len() && kept(head, keep)[k] == item;
                assert(kept(items, keep)[k] == item);
            } else {
                assert(kept(items, keep).last() == item);
            }
        }
        if kept(items, keep).contains(item) {
            let k = choose|k: int| 0 <= k < kept(items, keep).len() && kept(items, keep)[k] == item;
            if k < kept(head, keep).len() {
                assert(kept(head, keep)[k] == item);
                let i = choose|i: int| 0 <= i < head.len() && head[i] == item;
                assert(items[i] == item);
            } else {
                assert(items[items.len() - 1] == item);
            }
        }
    }
}

/// What a condition keeps and what it leaves out are together all the items.
pub proof fn kept_partition<T>(
    items: Seq<T>,
    keep: spec_fn(T) -> bool,
    leave: spec_fn(T) -> bool,
)
    requires
        forall|item: T| #[trigger] keep(item) == !leave(item),
    ensures
        kept(items, keep).to_multiset().add(kept(items, leave).to_multiset())
            == items.to_multiset(),
    decreases items.len(),
{
    broadcast use vstd::seq_lib::group_to_multiset_ensures;

    if items.len() > 0 {
        let head = items.drop_last();
        kept_partition(head, keep, leave);
        assert(items =~= head.push(items.last()));
        assert(keep(items.last()) == !leave(items.last()));
    } else {
        assert(items.to_multiset() =~= vstd::multiset::Multiset::empty());
    }
    assert(kept(items, keep).to_multiset().add(kept(items, leave).to_multiset())
        =~= items.to_multiset());
}

/// `items` without an item that equals the one before it.
pub open spec fn dedup<T>(items: Seq<T>) -> Seq<T>
    decreases items.len(),
{
    if items.len() <= 1 {
        items
    } else if items.last() == items[items.len() - 2] {
        dedup(items.drop_last())
    } else {
        dedup(items.drop_last()).push(items.last())
    }
}

/// `items` with each item only where it first occurs.
pub open spec fn distinct<T>(items: Seq<T>) -> Seq<T>
    decreases items.len(),
{
    if items.len() == 0 {
        items
    } else if items.drop_last().contains(items.last()) {
        distinct(items.drop_last())
    } else {
        distinct(items.drop_last()).push(items.last())
    }
}

/// Removing repetitions keeps every item, and keeps none twice.
pub proof fn distinct_members<T>(items: Seq<T>)
    ensures
        distinct(items).no_duplicates(),
        forall|item: T| #[trigger] distinct(items).contains(item) <==> items.contains(item),
    decreases items.len(),
{
    if items.len() > 0 {
        let rest = items.drop_last();
        let last = items.last();
        distinct_members(rest);
        assert(items =~= rest.push(last));
        assert forall|item: T| #[trigger] distinct(items).contains(item) <==> items.contains(
            item,
        ) by {
            if items.contains(item) && item != last {
                let at = choose|i: int| 0 <= i < items.len() && items[i] == item;
                assert(rest[at] == item);
            }
            if rest.contains(item) {
                let at = choose|i: int| 0 <= i < rest.len() && rest[i] == item;
                assert(items[at] == item);
            }
            if !rest.contains(last) {
                let kept = distinct(rest);
                assert(kept.push(last)[kept.len() as int] == last);
                if kept.contains(item) {
                    let at = choose|i: int| 0 <= i < kept.len() && kept[i] == item;
                    assert(kept.push(last)[at] == item);
                }
                if kept.push(last).contains(item) && item != last {
                    let at = choose|i: int|
                        0 <= i < kept.push(last).len() && kept.push(last)[i] == item;
                    assert(kept[at] == item);
                }
            }
        }
        if !rest.contains(last) {
            assert(!distinct(rest).contains(last));
        }
    }
}

/// Whether no item must follow the one after it.
pub open spec fn neighbours_sorted<T>(items: Seq<T>, after: spec_fn(T, T) -> bool) -> bool {
    forall|i: int, j: int| #![trigger items[i], items[j]]
        0 <= i && j == i + 1 && j < items.len() ==> !after(items[i], items[j])
}

/// Whether `after` is the strict part of a total preorder.
pub open spec fn strict_weak_order<T>(after: spec_fn(T, T) -> bool) -> bool {
    &&& forall|a: T, b: T| #[trigger] after(a, b) ==> !after(b, a)
    &&& forall|a: T, b: T, c: T| #![trigger after(a, b), after(b, c)]
        !after(a, b) && !after(b, c) ==> !after(a, c)
}

/// Inserting adds exactly the inserted item.
pub proof fn insert_keeps_items<T>(items: Seq<T>, item: T, after: spec_fn(T, T) -> bool)
    ensures
        insert_by(items, item, after).to_multiset() == items.to_multiset().insert(item),
        insert_by(items, item, after).len() == items.len() + 1,
    decreases items.len(),
{
    broadcast use vstd::seq_lib::group_to_multiset_ensures;

    if items.len() == 0 || !after(items.last(), item) {
    } else {
        insert_keeps_items(items.drop_last(), item, after);
        assert(items =~= items.drop_last().push(items.last()));
        assert(items.to_multiset() =~= items.drop_last().to_multiset().insert(items.last()));
        assert(insert_by(items, item, after).to_multiset() =~= items.to_multiset().insert(item));
    }
}

/// Sorting neither loses, adds nor changes an item.
pub proof fn sort_keeps_items<T>(items: Seq<T>, after: spec_fn(T, T) -> bool)
    ensures
        sort_by(items, after).to_multiset() == items.to_multiset(),
        sort_by(items, after).len() == items.len(),
    decreases items.len(),
{
    broadcast use vstd::seq_lib::group_to_multiset_ensures;

    if items.len() > 0 {
        sort_keeps_items(items.drop_last(), after);
        insert_keeps_items(sort_by(items.drop_last(), after), items.last(), after);
        assert(items =~= items.drop_last().push(items.last()));
    }
}

proof fn insert_last<T>(items: Seq<T>, item: T, after: spec_fn(T, T) -> bool)
    ensures
        insert_by(items, item, after).len() == items.len() + 1,
        insert_by(items, item, after).last() == item || (items.len() > 0 && insert_by(
            items,
            item,
            after,
        ).last() == items.last() && after(items.last(), item)),
{
    insert_keeps_items(items, item, after);
}

proof fn insert_keeps_sorted<T>(items: Seq<T>, item: T, after: spec_fn(T, T) -> bool)
    requires
        neighbours_sorted(items, after),
        forall|a: T, b: T| #[trigger] after(a, b) ==> !after(b, a),
    ensures
        neighbours_sorted(insert_by(items, item, after), after),
    decreases items.len(),
{
    let result = insert_by(items, item, after);
    if items.len() == 0 || !after(items.last(), item) {
        assert forall|i: int, j: int| #![trigger result[i], result[j]]
            0 <= i && j == i + 1 && j < result.len() implies !after(result[i], result[j]) by {
            if j < items.len() {
                assert(result[i] == items[i]);
                assert(result[j] == items[j]);
            }
        }
    } else {
        let head = items.drop_last();
        assert forall|i: int, j: int| #![trigger head[i], head[j]]
            0 <= i && j == i + 1 && j < head.len() implies !after(head[i], head[j]) by {
            assert(head[i] == items[i]);
            assert(head[j] == items[j]);
        }
        insert_keeps_sorted(head, item, after);
        insert_last(head, item, after);
        let inner = insert_by(head, item, after);
        assert forall|i: int, j: int| #![trigger result[i], result[j]]
            0 <= i && j == i + 1 && j < result.len() implies !after(result[i], result[j]) by {
            assert(result[i] == inner[i]);
            if j < inner.len() {
                assert(result[j] == inner[j]);
            } else {
                assert(result[i] == inner.last());
                assert(result[j] == items.last());
                if inner.last() != item {
                    assert(head.last() == items[items.len() - 2]);
                    assert(!after(items[items.len() - 2], items[items.len() - 1]));
                }
            }
        }
    }
}

/// After sorting, no item must follow its right neighbour.
pub proof fn sort_orders_neighbours<T>(items: Seq<T>, after: spec_fn(T, T) -> bool)
    requires
        forall|a: T, b: T| #[trigger] after(a, b) ==> !after(b, a),
    ensures
        neighbours_sorted(sort_by(items, after), after),
    decreases items.len(),
{
    if items.len() > 0 {
        sort_orders_neighbours(items.drop_last(), after);
        insert_keeps_sorted(sort_by(items.drop_last(), after), items.last(), after);
    }
}

proof fn neighbours_to_all<T>(items: Seq<T>, after: spec_fn(T, T) -> bool, low: int, high: int)
    requires
        strict_weak_order(after),
        neighbours_sorted(items, after),
        0 <= low < high < items.len(),
    ensures
        !after(items[low], items[high]),
    decreases high - low,
{
    if low + 1 < high {
        neighbours_to_all(items, after, low + 1, high);
        assert(!after(items[low], items[low + 1]));
    }
}

/// Sorting by the strict part of a total preorder leaves every pair in order.
pub proof fn sort_orders_all<T>(items: Seq<T>, after: spec_fn(T, T) -> bool, low: int, high: int)
    requires
        strict_weak_order(after),
        0 <= low < high < items.len(),
    ensures
        !after(sort_by(items, after)[low], sort_by(items, after)[high]),
{
    sort_orders_neighbours(items, after);
    sort_keeps_items(items, after);
    neighbours_to_all(sort_by(items, after), after, low, high);
}

/// Whether no item must follow a later one.
pub open spec fn all_sorted<T>(items: Seq<T>, after: spec_fn(T, T) -> bool) -> bool {
    forall|i: int, j: int| #![trigger items[i], items[j]]
        0 <= i < j < items.len() ==> !after(items[i], items[j])
}

/// Sorting by the strict part of a total preorder leaves the items sorted.
pub proof fn sorted_is_ordered<T>(items: Seq<T>, after: spec_fn(T, T) -> bool)
    requires
        strict_weak_order(after),
    ensures
        all_sorted(sort_by(items, after), after),
{
    let sorted = sort_by(items, after);
    sort_keeps_items(items, after);
    assert forall|i: int, j: int| #![trigger sorted[i], sorted[j]]
        0 <= i < j < sorted.len() implies !after(sorted[i], sorted[j]) by {
        sort_orders_all(items, after, i, j);
    }
}

/// What is kept of sorted items is sorted.
pub proof fn kept_is_ordered<T>(
    items: Seq<T>,
    keep: spec_fn(T) -> bool,
    after: spec_fn(T, T) -> bool,
)
    requires
        all_sorted(items, after),
    ensures
        all_sorted(kept(items, keep), after),
    decreases items.len(),
{
    if items.len() > 0 {
        let head = items.drop_last();
        assert forall|i: int, j: int| #![trigger head[i], head[j]]
            0 <= i < j < head.len() implies !after(head[i], head[j]) by {
            assert(head[i] == items[i]);
            assert(head[j] == items[j]);
        }
        kept_is_ordered(head, keep, after);
        let rest = kept(head, keep);
        let result = kept(items, keep);
        assert forall|i: int, j: int| #![trigger result[i], result[j]]
            0 <= i < j < result.len() implies !after(result[i], result[j]) by {
            assert(result[i] == rest[i]);
            if j < rest.len() {
                assert(result[j] == rest[j]);
            } else {
                assert(rest.contains(rest[i]));
                kept_members(head, keep, rest[i]);
                let at = choose|at: int| 0 <= at < head.len() && head[at] == rest[i];
                assert(items[at] == rest[i]);
                assert(result[j] == items[items.len() - 1]);
            }
        }
    }
}

/// The insertion point: everything from `at` on must follow `item`, and what stands
/// directly before it need not.
proof fn insert_position<T>(items: Seq<T>, item: T, after: spec_fn(T, T) -> bool, at: int)
    requires
        0 <= at <= items.len(),
        forall|k: int| at <= k < items.len() ==> after(#[trigger] items[k], item),
        at == 0 || !after(items[at - 1], item),
    ensures
        insert_by(items, item, after) =~= items.insert(at, item),
    decreases items.len() - at,
{
    if at < items.len() {
        let head = items.drop_last();
        insert_position(head, item, after, at);
        assert(insert_by(items, item, after) == insert_by(head, item, after).push(items.last()));
    }
}

/// Whether `left` and `right` were compared and may stand in this order: `left` was found not to
/// follow `right`, or `right` to follow `left`.
pub open spec fn compared<T, F: Fn(&T, &T) -> bool>(comes_after: F, left: T, right: T) -> bool {
    call_ensures(comes_after, (&left, &right), false) || call_ensures(
        comes_after,
        (&right, &left),
        true,
    )
}

/// Whether the neighbours among the items were compared.
pub open spec fn neighbours_compared<T, F: Fn(&T, &T) -> bool>(
    comes_after: F,
    items: Seq<T>,
) -> bool {
    forall|i: int, j: int| #![trigger items[i], items[j]]
        0 <= i && j == i + 1 && j < items.len() ==> compared(comes_after, items[i], items[j])
}

/// Sorts `items` stably by the models of the items: `comes_after(a, b)` decides whether
/// `a` must follow `b`. Items that end up side by side have been compared.
pub fn sort_values<T: DeepView, F: Fn(&T, &T) -> bool>(
    items: &mut Vec<T>,
    comes_after: F,
    Ghost(after): Ghost<spec_fn(T::V, T::V) -> bool>,
)
    requires
        forall|a: &T, b: &T| #[trigger] call_requires(comes_after, (a, b)),
        forall|a: &T, b: &T, r: bool| #[trigger]
            call_ensures(comes_after, (a, b), r) ==> r == after(a.deep_view(), b.deep_view()),
    ensures
        final(items).deep_view() == sort_by(old(items).deep_view(), after),
        neighbours_compared(comes_after, final(items)@),
{
    let ghost start = items.deep_view();
    let mut done: usize = 0;
    assert(start.take(0) =~= Seq::empty());
    while done < items.len()
        invariant
            done <= items@.len(),
            items@.len() == start.len(),
            items.deep_view().take(done as int) == sort_by(start.take(done as int), after),
            items.deep_view().skip(done as int) == start.skip(done as int),
            neighbours_compared(comes_after, items@.take(done as int)),
            forall|a: &T, b: &T| #[trigger] call_requires(comes_after, (a, b)),
            forall|a: &T, b: &T, r: bool| #[trigger]
                call_ensures(comes_after, (a, b), r) ==> r == after(a.deep_view(), b.deep_view()),
        decreases items@.len() - done,
    {
        let ghost before = items.deep_view();
        let ghost sorted = before.take(done as int);
        let ghost held = items@;
        let mut at: usize = done;
        while at > 0 && comes_after(&items[at - 1], &items[done])
            invariant
                at <= done < items@.len(),
                items.deep_view() == before,
                items@ == held,
                sorted == before.take(done as int),
                forall|k: int|
                    at <= k < done ==> after(#[trigger] sorted[k], before[done as int]),
                at < done ==> call_ensures(
                    comes_after,
                    (&held[at as int], &held[done as int]),
                    true,
                ),
                forall|a: &T, b: &T| #[trigger] call_requires(comes_after, (a, b)),
                forall|a: &T, b: &T, r: bool| #[trigger]
                    call_ensures(comes_after, (a, b), r) ==> r == after(
                        a.deep_view(),
                        b.deep_view(),
                    ),
            ensures
                at == 0 || !after(before[at - 1], before[done as int]),
                at == 0 || call_ensures(
                    comes_after,
                    (&held[at - 1], &held[done as int]),
                    false,
                ),
            decreases at,
        {
            at = at - 1;
        }
        if at < done {
            let item = items.remove(done);
            items.insert(at, item);
        }
        proof {
            let key = before[done as int];
            insert_position(sorted, key, after, at as int);
            let now = items.deep_view();
            assert(start[done as int] == start.skip(done as int)[0]);
            assert(before.skip(done as int)[0] == before[done as int]);
            assert(now =~= before.remove(done as int).insert(at as int, key));
            assert(now.take(done + 1) =~= sorted.insert(at as int, key));
            assert(start.take(done + 1).drop_last() =~= start.take(done as int));
            assert(now.take(done + 1) =~= sort_by(start.take(done + 1), after));
            assert forall|k: int| 0 <= k < start.len() - done - 1 implies #[trigger] now.skip(done + 1)[k]
                == start.skip(done + 1)[k] by {
                assert(before.skip(done as int)[k + 1] == start.skip(done as int)[k + 1]);
            }
            assert(now.skip(done + 1) =~= start.skip(done + 1));
            assert(items@ =~= held.remove(done as int).insert(at as int, held[done as int]));
            let placed = items@.take(done + 1);
            let earlier = held.take(done as int);
            assert forall|i: int, j: int| #![trigger placed[i], placed[j]]
                0 <= i && j == i + 1 && j < placed.len() implies compared(
                comes_after,
                placed[i],
                placed[j],
            ) by {
                if j < at {
                    assert(placed[i] == earlier[i] && placed[j] == earlier[j]);
                } else if i > at {
                    assert(placed[i] == earlier[i - 1] && placed[j] == earlier[j - 1]);
                }
            }
        }
        done = done + 1;
    }
    assert(items.deep_view().take(done as int) =~= items.deep_view());
    assert(start.take(done as int) =~= start);
    assert(items@.take(done as int) =~= items@);
}

} // verus!
