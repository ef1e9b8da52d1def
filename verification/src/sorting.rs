//! Putting a list in order by a key, without moving what is equal.
//!
//! The order is found as a list of positions, so that lists of any kind of
//! item can be arranged by it.

use vstd::prelude::*;

verus! {

/// Whether the item at position `x` comes before the one at position `y`:
/// its key is the smaller one (the greater one when `descending`), or the
/// keys are equal and it stood first.
pub open spec fn comes_before(keys: Seq<i64>, descending: bool, x: int, y: int) -> bool {
    if keys[x] == keys[y] {
        x < y
    } else if descending {
        keys[x] > keys[y]
    } else {
        keys[x] < keys[y]
    }
}

/// Whether `order` lists the positions of `keys` so that each comes before
/// the next. There is one such list for every list of keys.
pub open spec fn is_stable_order(keys: Seq<i64>, descending: bool, order: Seq<usize>) -> bool {
    &&& order.len() == keys.len()
    &&& forall|a: int| 0 <= a < order.len() ==> (#[trigger] order[a]) < keys.len()
    &&& forall|a: int, b: int|
        0 <= a < b < order.len() ==> comes_before(
            keys,
            descending,
            #[trigger] order[a] as int,
            #[trigger] order[b] as int,
        )
}

/// `items` arranged by `order`: the item at position `order[a]` stands at
/// position `a`.
pub open spec fn arranged<T>(items: Seq<T>, order: Seq<usize>) -> Seq<T> {
    Seq::new(order.len(), |a: int| items[order[a] as int])
}

/// Whether the key `x` goes behind the key `y` that has stood before it.
fn goes_behind(x: i64, y: i64, descending: bool) -> (behind: bool)
    ensures
        behind == (if descending {
            x <= y
        } else {
            x >= y
        }),
{
    if descending {
        x <= y
    } else {
        x >= y
    }
}

/// Finds the order of `keys`: see [`is_stable_order`].
pub fn stable_order(keys: &Vec<i64>, descending: bool) -> (order: Vec<usize>)
    ensures
        is_stable_order(keys@, descending, order@),
{
    let mut order: Vec<usize> = Vec::new();
    let mut i: usize = 0;
    while i < keys.len()
        invariant
            i <= keys.len(),
            order@.len() == i,
            forall|a: int| 0 <= a < order@.len() ==> (#[trigger] order@[a]) < i,
            forall|a: int, b: int|
                0 <= a < b < order@.len() ==> comes_before(
                    keys@,
                    descending,
                    #[trigger] order@[a] as int,
                    #[trigger] order@[b] as int,
                ),
        decreases keys.len() - i,
    {
        let mut p: usize = i;
        while p > 0 && !goes_behind(keys[i], keys[order[p - 1]], descending)
            invariant
                p <= i,
                i < keys.len(),
                order@.len() == i,
                forall|a: int| 0 <= a < order@.len() ==> (#[trigger] order@[a]) < i,
                forall|b: int|
                    p <= b < i ==> comes_before(keys@, descending, i as int, #[trigger] order@[b] as int),
            decreases p,
        {
            p = p - 1;
        }
        let ghost old_order = order@;
        proof {
            assert forall|a: int| 0 <= a < p implies comes_before(
                keys@,
                descending,
                #[trigger] old_order[a] as int,
                i as int,
            ) by {
                if a < p - 1 {
                    assert(comes_before(
                        keys@,
                        descending,
                        old_order[a] as int,
                        old_order[p - 1] as int,
                    ));
                }
            }
        }
        order.insert(p, i);
        proof {
            assert forall|a: int, b: int| 0 <= a < b < order@.len() implies comes_before(
                keys@,
                descending,
                #[trigger] order@[a] as int,
                #[trigger] order@[b] as int,
            ) by {
                if a < p && b > p {
                    assert(order@[a] == old_order[a]);
                    assert(order@[b] == old_order[b - 1]);
                } else if a < p && b < p {
                    assert(order@[a] == old_order[a]);
                    assert(order@[b] == old_order[b]);
                } else if a > p {
                    assert(order@[a] == old_order[a - 1]);
                    assert(order@[b] == old_order[b - 1]);
                } else if a == p {
                    assert(order@[b] == old_order[b - 1]);
                } else {
                    assert(order@[a] == old_order[a]);
                }
            }
        }
        i = i + 1;
    }
    order
}

/// No two positions of an order are the same, and there is only one order:
/// two lists of positions that both put `keys` in order are equal.
pub proof fn lemma_stable_order_is_unique(
    keys: Seq<i64>,
    descending: bool,
    first: Seq<usize>,
    second: Seq<usize>,
)
    requires
        is_stable_order(keys, descending, first),
        is_stable_order(keys, descending, second),
    ensures
        forall|a: int, b: int|
            0 <= a < b < first.len() ==> #[trigger] first[a] != #[trigger] first[b],
        first == second,
{
    assert forall|a: int, b: int| 0 <= a < b < first.len() implies #[trigger] first[a]
        != #[trigger] first[b] by {
        assert(comes_before(keys, descending, first[a] as int, first[b] as int));
    }
    lemma_orders_agree(keys, descending, first, second, keys.len() as int);
    assert(first =~= second);
}

/// Two orders of the same keys agree on their first `n` positions.
proof fn lemma_orders_agree(
    keys: Seq<i64>,
    descending: bool,
    first: Seq<usize>,
    second: Seq<usize>,
    n: int,
)
    requires
        is_stable_order(keys, descending, first),
        is_stable_order(keys, descending, second),
        0 <= n <= keys.len(),
    ensures
        forall|a: int| 0 <= a < n ==> first[a] == second[a],
    decreases n,
{
    if n > 0 {
        lemma_orders_agree(keys, descending, first, second, n - 1);
        let a = n - 1;
        if first[a] != second[a] {
            // Both lists hold every position once, so the position that one
            // list has here stands later in the other, behind the position
            // that the other has here: each would come before the other.
            lemma_order_holds_all(keys, descending, first, second[a] as int);
            lemma_order_holds_all(keys, descending, second, first[a] as int);
            let i = choose|i: int| 0 <= i < first.len() && first[i] == second[a];
            let j = choose|j: int| 0 <= j < second.len() && second[j] == first[a];
            assert(i != a);
            assert(j != a);
            if i < a {
                assert(first[i] == second[i]);
                assert(comes_before(keys, descending, second[i] as int, second[a] as int));
            } else if j < a {
                assert(second[j] == first[j]);
                assert(comes_before(keys, descending, first[j] as int, first[a] as int));
            } else {
                assert(comes_before(keys, descending, first[a] as int, first[i] as int));
                assert(comes_before(keys, descending, second[a] as int, second[j] as int));
            }
        }
    }
}

/// An order holds every position of its keys.
proof fn lemma_order_holds_all(keys: Seq<i64>, descending: bool, order: Seq<usize>, x: int)
    requires
        is_stable_order(keys, descending, order),
        0 <= x < keys.len(),
    ensures
        exists|i: int| 0 <= i < order.len() && order[i] == x,
{
    let values = order.map_values(|v: usize| v as int);
    assert forall|a: int, b: int| 0 <= a < b < values.len() implies values[a] != values[b] by {
        assert(comes_before(keys, descending, order[a] as int, order[b] as int));
    }
    assert(values.no_duplicates());
    let held = values.to_set();
    values.unique_seq_to_set();
    let all = Set::new(|v: int| 0 <= v < keys.len());
    assert(all =~= vstd::set_lib::set_int_range(0, keys.len() as int));
    vstd::set_lib::lemma_int_range(0, keys.len() as int);
    assert(held.subset_of(all)) by {
        assert forall|v: int| held.contains(v) implies all.contains(v) by {
            let i = choose|i: int| 0 <= i < values.len() && values[i] == v;
            assert(order[i] < keys.len());
        }
    }
    vstd::set_lib::lemma_subset_equality(held, all);
    assert(held.contains(x));
    let i = choose|i: int| 0 <= i < values.len() && values[i] == x;
    assert(order[i] == x);
}

/// Whether `order` lists the first `k` positions of `keys` so that each
/// comes before the next.
pub open spec fn orders_first(keys: Seq<i64>, descending: bool, order: Seq<usize>, k: int) -> bool {
    &&& order.len() == k
    &&& forall|a: int| 0 <= a < order.len() ==> (#[trigger] order[a]) < k
    &&& forall|a: int, b: int|
        0 <= a < b < order.len() ==> comes_before(
            keys,
            descending,
            #[trigger] order[a] as int,
            #[trigger] order[b] as int,
        )
}

/// How many of `order`, counted from its start, come before position `x`:
/// the place at which `x` goes into `order`.
pub open spec fn place_of(keys: Seq<i64>, descending: bool, order: Seq<usize>, x: int) -> int
    decreases order.len(),
{
    if order.len() == 0 {
        0
    } else if comes_before(keys, descending, order.last() as int, x) {
        order.len() as int
    } else {
        place_of(keys, descending, order.drop_last(), x)
    }
}

/// The order of the first `k` positions of `keys`, found by putting each
/// position in its place among those before it.
pub open spec fn order_of_first(keys: Seq<i64>, descending: bool, k: int) -> Seq<usize>
    decreases k,
{
    if k <= 0 {
        Seq::<usize>::empty()
    } else {
        let before = order_of_first(keys, descending, k - 1);
        before.insert(place_of(keys, descending, before, k - 1), (k - 1) as usize)
    }
}

/// The place of `x` in an order parts those that come before `x` from those
/// that `x` comes before.
proof fn lemma_place_in_prefix(keys: Seq<i64>, descending: bool, order: Seq<usize>, k: int, x: int)
    requires
        0 <= k <= x < keys.len(),
        forall|a: int| 0 <= a < order.len() ==> (#[trigger] order[a]) < k,
        forall|a: int, b: int|
            0 <= a < b < order.len() ==> comes_before(
                keys,
                descending,
                #[trigger] order[a] as int,
                #[trigger] order[b] as int,
            ),
    ensures
        0 <= place_of(keys, descending, order, x) <= order.len(),
        forall|a: int|
            0 <= a < place_of(keys, descending, order, x) ==> comes_before(
                keys,
                descending,
                #[trigger] order[a] as int,
                x,
            ),
        forall|a: int|
            place_of(keys, descending, order, x) <= a < order.len() ==> comes_before(
                keys,
                descending,
                x,
                #[trigger] order[a] as int,
            ),
    decreases order.len(),
{
    if order.len() == 0 {
    } else if comes_before(keys, descending, order.last() as int, x) {
        assert forall|a: int| 0 <= a < order.len() implies comes_before(
            keys,
            descending,
            #[trigger] order[a] as int,
            x,
        ) by {
            if a < order.len() - 1 {
                assert(comes_before(keys, descending, order[a] as int, order[order.len() - 1] as int));
            }
        }
    } else {
        let shorter = order.drop_last();
        assert(order[order.len() - 1] < k);
        assert forall|a: int| 0 <= a < shorter.len() implies (#[trigger] shorter[a]) < k by {
            assert(shorter[a] == order[a]);
        }
        assert forall|a: int, b: int| 0 <= a < b < shorter.len() implies comes_before(
            keys,
            descending,
            #[trigger] shorter[a] as int,
            #[trigger] shorter[b] as int,
        ) by {
            assert(shorter[a] == order[a] && shorter[b] == order[b]);
        }
        lemma_place_in_prefix(keys, descending, shorter, k, x);
        let p = place_of(keys, descending, order, x);
        assert(p == place_of(keys, descending, shorter, x));
        assert forall|a: int| 0 <= a < p implies comes_before(
            keys,
            descending,
            #[trigger] order[a] as int,
            x,
        ) by {
            assert(order[a] == shorter[a]);
        }
        assert forall|a: int| p <= a < order.len() implies comes_before(
            keys,
            descending,
            x,
            #[trigger] order[a] as int,
        ) by {
            if a < order.len() - 1 {
                assert(order[a] == shorter[a]);
            }
        }
    }
}

/// [`order_of_first`] puts the first `k` positions in order.
pub proof fn lemma_order_of_first(keys: Seq<i64>, descending: bool, k: int)
    requires
        0 <= k <= keys.len(),
        keys.len() <= usize::MAX,
    ensures
        orders_first(keys, descending, order_of_first(keys, descending, k), k),
    decreases k,
{
    if k > 0 {
        lemma_order_of_first(keys, descending, k - 1);
        let before = order_of_first(keys, descending, k - 1);
        let p = place_of(keys, descending, before, k - 1);
        let x = (k - 1) as usize;
        let order = order_of_first(keys, descending, k);
        lemma_place_in_prefix(keys, descending, before, k - 1, k - 1);
        assert(order == before.insert(p, x));
        assert forall|a: int| 0 <= a < order.len() implies (#[trigger] order[a]) < k by {
            if a < p {
                assert(order[a] == before[a]);
            } else if a > p {
                assert(order[a] == before[a - 1]);
            }
        }
        assert forall|a: int, b: int| 0 <= a < b < order.len() implies comes_before(
            keys,
            descending,
            #[trigger] order[a] as int,
            #[trigger] order[b] as int,
        ) by {
            if a < p && b > p {
                assert(order[a] == before[a]);
                assert(order[b] == before[b - 1]);
            } else if a < p && b < p {
                assert(order[a] == before[a]);
                assert(order[b] == before[b]);
            } else if a > p {
                assert(order[a] == before[a - 1]);
                assert(order[b] == before[b - 1]);
            } else if a == p {
                assert(order[b] == before[b - 1]);
            } else {
                assert(order[a] == before[a]);
            }
        }
    }
}

/// Every list of keys has an order.
pub proof fn lemma_stable_order_exists(keys: Seq<i64>, descending: bool)
    requires
        keys.len() <= usize::MAX,
    ensures
        is_stable_order(keys, descending, order_of_first(keys, descending, keys.len() as int)),
        exists|order: Seq<usize>| is_stable_order(keys, descending, order),
{
    lemma_order_of_first(keys, descending, keys.len() as int);
    assert(is_stable_order(keys, descending, order_of_first(keys, descending, keys.len() as int)));
}

} // verus!
