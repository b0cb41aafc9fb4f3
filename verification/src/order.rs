//! Sorting by rank: items come out by rising rank, and items of one rank in
//! the order in which they went in.

use vstd::prelude::*;

verus! {

/// Something that can be ranked.
pub trait Ranked {
    /// The rank: an item with a lower rank comes first.
    spec fn rank(&self) -> int;

    fn rank_of(&self) -> (rank: u64)
        ensures
            rank == self.rank(),
    ;
}

/// `sorted` with `item` put in behind the last item whose rank is not
/// higher.
pub open spec fn insert_by_rank<T: Ranked>(sorted: Seq<T>, item: T) -> Seq<T>
    decreases sorted.len(),
{
    if sorted.len() == 0 {
        seq![item]
    } else if sorted.last().rank() <= item.rank() {
        sorted.push(item)
    } else {
        insert_by_rank(sorted.drop_last(), item).push(sorted.last())
    }
}

/// The items by rising rank; items of one rank keep their order.
pub open spec fn sorted_by_rank<T: Ranked>(items: Seq<T>) -> Seq<T>
    decreases items.len(),
{
    if items.len() == 0 {
        Seq::empty()
    } else {
        insert_by_rank(sorted_by_rank(items.drop_last()), items.last())
    }
}

/// No item stands before one of a lower rank.
pub open spec fn rising<T: Ranked>(items: Seq<T>) -> bool {
    forall|a: int, b: int| 0 <= a < b < items.len() ==> items[a].rank() <= items[b].rank()
}

/// Where an item goes in: behind the items before `at`, the last of which
/// does not rank higher, and before the items from `at` on, which all do.
proof fn lemma_insert_at<T: Ranked>(sorted: Seq<T>, item: T, at: int)
    requires
        0 <= at <= sorted.len(),
        at > 0 ==> sorted[at - 1].rank() <= item.rank(),
        forall|k: int| at <= k < sorted.len() ==> sorted[k].rank() > item.rank(),
    ensures
        insert_by_rank(sorted, item) == sorted.insert(at, item),
    decreases sorted.len(),
{
    if sorted.len() == 0 {
        assert(seq![item] =~= sorted.insert(at, item));
    } else if at == sorted.len() {
        assert(sorted.push(item) =~= sorted.insert(at, item));
    } else {
        assert(sorted.last().rank() > item.rank());
        lemma_insert_at(sorted.drop_last(), item, at);
        assert(sorted.drop_last().insert(at, item).push(sorted.last()) =~= sorted.insert(at, item));
    }
}

/// Putting an item in keeps every item that was there, and adds no other.
pub proof fn lemma_insert_members<T: Ranked>(sorted: Seq<T>, item: T)
    ensures
        insert_by_rank(sorted, item).len() == sorted.len() + 1,
        forall|k: int|
            0 <= k < sorted.len() + 1 ==> #[trigger] insert_by_rank(sorted, item)[k] == item
                || sorted.contains(insert_by_rank(sorted, item)[k]),
    decreases sorted.len(),
{
    if sorted.len() > 0 && sorted.last().rank() > item.rank() {
        lemma_insert_members(sorted.drop_last(), item);
        let inner = insert_by_rank(sorted.drop_last(), item);
        assert forall|k: int| 0 <= k < sorted.len() + 1 implies #[trigger] insert_by_rank(sorted, item)[k]
            == item || sorted.contains(insert_by_rank(sorted, item)[k]) by {
            if k < sorted.len() {
                if inner[k] != item {
                    let m = choose|m: int| 0 <= m < sorted.drop_last().len() && sorted.drop_last()[m] == inner[k];
                    assert(sorted[m] == inner[k]);
                }
            } else {
                assert(sorted[sorted.len() - 1] == sorted.last());
            }
        }
    } else if sorted.len() > 0 {
        assert forall|k: int| 0 <= k < sorted.len() + 1 implies #[trigger] insert_by_rank(sorted, item)[k]
            == item || sorted.contains(insert_by_rank(sorted, item)[k]) by {
            if k < sorted.len() {
                assert(sorted[k] == insert_by_rank(sorted, item)[k]);
            }
        }
    }
}

/// Sorting keeps the number of items, and every item that comes out went
/// in.
pub proof fn lemma_sorted_members<T: Ranked>(items: Seq<T>)
    ensures
        sorted_by_rank(items).len() == items.len(),
        forall|k: int| 0 <= k < items.len() ==> items.contains(#[trigger] sorted_by_rank(items)[k]),
    decreases items.len(),
{
    if items.len() > 0 {
        let front = items.drop_last();
        lemma_sorted_members(front);
        lemma_insert_members(sorted_by_rank(front), items.last());
        assert forall|k: int| 0 <= k < items.len() implies items.contains(
            #[trigger] sorted_by_rank(items)[k],
        ) by {
            let d = sorted_by_rank(items)[k];
            if d == items.last() {
                assert(items[items.len() - 1] == d);
            } else {
                let m = choose|m: int| 0 <= m < front.len() && sorted_by_rank(front)[m] == d;
                let n = choose|n: int| 0 <= n < front.len() && front[n] == sorted_by_rank(front)[m];
                assert(items[n] == d);
            }
        }
    }
}

proof fn lemma_insert_rising<T: Ranked>(sorted: Seq<T>, item: T)
    requires
        rising(sorted),
    ensures
        rising(insert_by_rank(sorted, item)),
    decreases sorted.len(),
{
    if sorted.len() > 0 && sorted.last().rank() > item.rank() {
        let front = sorted.drop_last();
        lemma_insert_rising(front, item);
        lemma_insert_members(front, item);
        let inner = insert_by_rank(front, item);
        let out = insert_by_rank(sorted, item);
        assert forall|a: int, b: int| 0 <= a < b < out.len() implies out[a].rank() <= out[b].rank() by {
            if b == out.len() - 1 {
                if inner[a] != item {
                    let m = choose|m: int| 0 <= m < front.len() && front[m] == inner[a];
                    assert(sorted[m].rank() <= sorted[sorted.len() - 1].rank());
                }
            } else {
                assert(inner[a].rank() <= inner[b].rank());
            }
        }
    }
}

/// Sorted items stand by rising rank.
pub proof fn lemma_sorted_rising<T: Ranked>(items: Seq<T>)
    ensures
        rising(sorted_by_rank(items)),
    decreases items.len(),
{
    if items.len() > 0 {
        lemma_sorted_rising(items.drop_last());
        lemma_insert_rising(sorted_by_rank(items.drop_last()), items.last());
    }
}

/// Items that stand by rising rank stay as they are when sorted.
pub proof fn lemma_rising_stays<T: Ranked>(items: Seq<T>)
    requires
        rising(items),
    ensures
        sorted_by_rank(items) == items,
    decreases items.len(),
{
    if items.len() > 0 {
        let front = items.drop_last();
        assert forall|a: int, b: int| 0 <= a < b < front.len() implies front[a].rank() <= front[b].rank() by {
            assert(items[a].rank() <= items[b].rank());
        }
        lemma_rising_stays(front);
        if front.len() > 0 {
            assert(items[front.len() - 1].rank() <= items[items.len() - 1].rank());
        }
        assert(front.push(items.last()) =~= items);
    }
}

/// Sorting twice is sorting once.
pub proof fn lemma_sorted_twice<T: Ranked>(items: Seq<T>)
    ensures
        sorted_by_rank(sorted_by_rank(items)) == sorted_by_rank(items),
{
    lemma_sorted_rising(items);
    lemma_rising_stays(sorted_by_rank(items));
}

/// Brings the items into the order of their rank; items of one rank keep
/// their order.
pub fn sort_by_rank<T: Ranked>(items: &mut Vec<T>)
    ensures
        final(items)@ == sorted_by_rank(old(items)@),
{
    let n = items.len();
    let mut j: usize = 0;
    while j < n
        invariant
            j <= n,
            n == items@.len(),
            n == old(items)@.len(),
            items@.subrange(0, j as int) == sorted_by_rank(old(items)@.subrange(0, j as int)),
            items@.subrange(j as int, n as int) == old(items)@.subrange(j as int, n as int),
        decreases n - j,
    {
        let key = items[j].rank_of();
        let mut at: usize = j;
        while at > 0 && items[at - 1].rank_of() > key
            invariant
                at <= j < n,
                n == items@.len(),
                key == items@[j as int].rank(),
                forall|k: int| at <= k < j ==> items@[k].rank() > key,
            decreases at,
        {
            at -= 1;
        }
        let ghost before = items@;
        let ghost front = before.subrange(0, j as int);
        let item = items.remove(j);
        items.insert(at, item);
        proof {
            assert(item == before[j as int]);
            assert(before[j as int] == old(items)@[j as int]) by {
                assert(before.subrange(j as int, n as int)[0] == old(items)@.subrange(j as int, n as int)[0]);
            }
            lemma_insert_at(front, item, at as int);
            assert(items@.subrange(0, j + 1) =~= front.insert(at as int, item));
            assert(old(items)@.subrange(0, j + 1).drop_last() =~= old(items)@.subrange(0, j as int));
            assert(old(items)@.subrange(0, j + 1).last() == item);
            assert(items@.subrange(j + 1, n as int) =~= old(items)@.subrange(j + 1, n as int)) by {
                assert forall|k: int| 0 <= k < n - j - 1 implies #[trigger] items@.subrange(
                    j + 1,
                    n as int,
                )[k] == old(items)@.subrange(j + 1, n as int)[k] by {
                    assert(before.subrange(j as int, n as int)[k + 1] == old(items)@.subrange(
                        j as int,
                        n as int,
                    )[k + 1]);
                }
            }
        }
        j += 1;
    }
    assert(items@.subrange(0, n as int) =~= items@);
    assert(old(items)@.subrange(0, n as int) =~= old(items)@);
}

} // verus!
