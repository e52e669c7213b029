//! Stable sorting of paths. The result is the order in which to visit the
//! given paths: a list of their positions.

use vstd::prelude::*;
use crate::order::Order;
use crate::lexical::is_total_preorder;
use crate::text::views_of;
use crate::paths::{path_relation, path_order_of, lemma_path_order_total};

verus! {

/// The component lists of a list of paths.
pub open spec fn path_keys(paths: Seq<Vec<String>>) -> Seq<Seq<Seq<char>>> {
    Seq::new(paths.len(), |i: int| views_of(paths[i]@))
}

/// Whether the key at position `x` has to come before the key at position
/// `y`: it is the lesser one, or the two are equal and `x` is the earlier
/// position.
pub open spec fn precedes<K>(keys: Seq<K>, order: spec_fn(K, K) -> Order, x: int, y: int) -> bool {
    order(keys[x], keys[y]) == Order::Less || (order(keys[x], keys[y]) == Order::Equal && x < y)
}

/// One step along a total preorder: from `x` not above `y` and `y` not above
/// `z`, `x` is not above `z`.
pub proof fn lemma_preorder_chain<K>(order: spec_fn(K, K) -> Order, x: K, y: K, z: K)
    requires
        is_total_preorder(order),
        order(x, y) != Order::Greater,
        order(y, z) != Order::Greater,
    ensures
        order(x, z) != Order::Greater,
        order(x, y) == Order::Less || order(y, z) == Order::Less ==> order(x, z) == Order::Less,
{
}

/// How many of the first `upto` positions are marked in `keep`.
pub open spec fn kept_count(keep: Seq<bool>, upto: nat) -> nat
    decreases upto,
{
    if upto == 0 {
        0
    } else {
        kept_count(keep, (upto - 1) as nat) + if keep[upto - 1] {
            1nat
        } else {
            0nat
        }
    }
}

/// Whether `visit` lists those of the first `upto` positions of `keys` that
/// are marked in `keep`, each once, so that the keys come in ascending order
/// and equal keys keep the order they had.
pub open spec fn is_selection_upto<K>(
    visit: Seq<usize>,
    keys: Seq<K>,
    order: spec_fn(K, K) -> Order,
    keep: Seq<bool>,
    upto: nat,
) -> bool {
    &&& visit.len() == kept_count(keep, upto)
    &&& forall|i: int| 0 <= i < visit.len() ==> (#[trigger] visit[i]) < upto && keep[visit[i] as int]
    &&& forall|p: int| 0 <= p < upto && #[trigger] keep[p] ==> visit.contains(p as usize)
    &&& forall|i: int, j: int|
        0 <= i < j < visit.len() ==> #[trigger] visit[i] != #[trigger] visit[j]
    &&& forall|i: int, j: int|
        #![trigger visit[i], visit[j]]
        0 <= i < j < visit.len() ==> precedes(keys, order, visit[i] as int, visit[j] as int)
}

/// Whether `visit` lists the positions of `keys` that are marked in `keep`,
/// each once, so that the keys come in ascending order and equal keys keep
/// the order they had.
pub open spec fn is_stable_selection<K>(
    visit: Seq<usize>,
    keys: Seq<K>,
    order: spec_fn(K, K) -> Order,
    keep: Seq<bool>,
) -> bool {
    is_selection_upto(visit, keys, order, keep, keys.len())
}

/// Marks on every one of `count` positions.
pub open spec fn all_kept(count: nat) -> Seq<bool> {
    Seq::new(count, |i: int| true)
}

/// Whether `visit` lists the positions of `keys`, each once, so that the keys
/// come in ascending order and equal keys keep the order they had.
pub open spec fn is_stable_sort<K>(
    visit: Seq<usize>,
    keys: Seq<K>,
    order: spec_fn(K, K) -> Order,
) -> bool {
    is_stable_selection(visit, keys, order, all_kept(keys.len()))
}

/// Where every position is marked, all of them are counted: a stable sort
/// visits as many positions as there are keys.
pub proof fn lemma_kept_count_all(keep: Seq<bool>, upto: nat)
    requires
        upto <= keep.len(),
        forall|p: int| 0 <= p < keep.len() ==> keep[p],
    ensures
        kept_count(keep, upto) == upto,
    decreases upto,
{
    if upto > 0 {
        lemma_kept_count_all(keep, (upto - 1) as nat);
    }
}

/// Putting position `upto` into a selection of the positions before it, at
/// the place behind everything that is not greater, gives the selection of
/// the positions up to and with `upto`.
proof fn lemma_selection_insert<K>(
    before: Seq<usize>,
    keys: Seq<K>,
    order: spec_fn(K, K) -> Order,
    keep: Seq<bool>,
    upto: nat,
    pos: int,
)
    requires
        is_total_preorder(order),
        upto < keys.len(),
        upto <= usize::MAX,
        keys.len() == keep.len(),
        keep[upto as int],
        is_selection_upto(before, keys, order, keep, upto),
        0 <= pos <= before.len(),
        pos > 0 ==> order(keys[before[pos - 1] as int], keys[upto as int]) != Order::Greater,
        forall|j: int|
            pos <= j < before.len() ==> order(keys[(#[trigger] before[j]) as int], keys[upto as int])
                == Order::Greater,
    ensures
        is_selection_upto(before.insert(pos, upto as usize), keys, order, keep, upto + 1),
{
    let k = upto as usize;
    let after = before.insert(pos, k);
    let len = before.len();
    assert forall|i: int| 0 <= i < pos implies order(
        keys[(#[trigger] before[i]) as int],
        keys[upto as int],
    ) != Order::Greater by {
        if i < pos - 1 {
            assert(precedes(keys, order, before[i] as int, before[pos - 1] as int));
            lemma_preorder_chain(
                order,
                keys[before[i] as int],
                keys[before[pos - 1] as int],
                keys[upto as int],
            );
        }
    }
    assert forall|i: int| 0 <= i < after.len() implies (#[trigger] after[i]) < upto + 1
        && keep[after[i] as int] by {
        if i < pos {
            assert(after[i] == before[i]);
        } else if i > pos {
            assert(after[i] == before[i - 1]);
        }
    }
    assert forall|p: int| 0 <= p < upto + 1 && #[trigger] keep[p] implies after.contains(
        p as usize,
    ) by {
        if p == upto {
            assert(after[pos] == k);
        } else {
            assert(before.contains(p as usize));
            let at = choose|at: int| 0 <= at < before.len() && before[at] == p as usize;
            if at < pos {
                assert(after[at] == before[at]);
            } else {
                assert(after[at + 1] == before[at]);
            }
        }
    }
    assert forall|i: int, j: int| 0 <= i < j < after.len() implies {
        &&& #[trigger] after[i] != #[trigger] after[j]
        &&& precedes(keys, order, after[i] as int, after[j] as int)
    } by {
        let bi = if i < pos { i } else { i - 1 };
        let bj = if j < pos { j } else { j - 1 };
        if i != pos && j != pos {
            assert(after[i] == before[bi] && after[j] == before[bj]);
            assert(precedes(keys, order, before[bi] as int, before[bj] as int));
        } else if j == pos {
            assert(after[i] == before[i]);
            assert(before[i] < upto);
            assert(order(keys[before[i] as int], keys[upto as int]) != Order::Greater);
        } else {
            assert(after[j] == before[j - 1]);
            assert(before[j - 1] < upto);
            assert(order(keys[before[j - 1] as int], keys[upto as int]) == Order::Greater);
            assert(order(keys[upto as int], keys[before[j - 1] as int]) == order(
                keys[before[j - 1] as int],
                keys[upto as int],
            ).reversed());
        }
    }
}

/// The order in which to visit those of `paths` that are marked in `keep`,
/// so that they come sorted under the given sort mode, paths that compare
/// equal staying in the order given.
pub fn sorted_selection(paths: &Vec<Vec<String>>, keep: &Vec<bool>, natural: bool) -> (visit: Vec<
    usize,
>)
    requires
        keep.len() == paths.len(),
    ensures
        is_stable_selection(visit@, path_keys(paths@), path_relation(natural), keep@),
{
    let ghost keys = path_keys(paths@);
    let ghost order = path_relation(natural);
    proof {
        lemma_path_order_total(natural);
    }
    let mut visit: Vec<usize> = Vec::new();
    let mut k: usize = 0;
    while k < paths.len()
        invariant
            keys == path_keys(paths@),
            order == path_relation(natural),
            is_total_preorder(order),
            keep.len() == paths.len(),
            k <= paths.len(),
            is_selection_upto(visit@, keys, order, keep@, k as nat),
        decreases paths.len() - k,
    {
        if keep[k] {
            let pos = insertion_point(paths, &visit, k, natural);
            proof {
                lemma_selection_insert(visit@, keys, order, keep@, k as nat, pos as int);
            }
            visit.insert(pos, k);
        }
        k = k + 1;
    }
    visit
}

/// Where to put path `k` among the paths visited so far, which are sorted:
/// behind the last one that is not greater than it. The place is found by
/// halving.
fn insertion_point(paths: &Vec<Vec<String>>, visit: &Vec<usize>, k: usize, natural: bool) -> (pos:
    usize)
    requires
        k < paths.len(),
        forall|i: int| 0 <= i < visit.len() ==> (#[trigger] visit@[i]) < paths.len(),
        forall|i: int, j: int|
            #![trigger visit@[i], visit@[j]]
            0 <= i < j < visit.len() ==> precedes(
                path_keys(paths@),
                path_relation(natural),
                visit@[i] as int,
                visit@[j] as int,
            ),
    ensures
        pos <= visit.len(),
        pos > 0 ==> path_relation(natural)(
            path_keys(paths@)[visit@[pos - 1] as int],
            path_keys(paths@)[k as int],
        ) != Order::Greater,
        forall|j: int|
            pos <= j < visit.len() ==> path_relation(natural)(
                path_keys(paths@)[(#[trigger] visit@[j]) as int],
                path_keys(paths@)[k as int],
            ) == Order::Greater,
{
    let ghost keys = path_keys(paths@);
    let ghost order = path_relation(natural);
    proof {
        lemma_path_order_total(natural);
    }
    let mut low: usize = 0;
    let mut high: usize = visit.len();
    while low < high
        invariant
            keys == path_keys(paths@),
            order == path_relation(natural),
            is_total_preorder(order),
            k < paths.len(),
            low <= high <= visit.len(),
            forall|i: int| 0 <= i < visit.len() ==> (#[trigger] visit@[i]) < paths.len(),
            forall|i: int, j: int|
                #![trigger visit@[i], visit@[j]]
                0 <= i < j < visit.len() ==> precedes(
                    keys,
                    order,
                    visit@[i] as int,
                    visit@[j] as int,
                ),
            forall|i: int|
                0 <= i < low ==> order(keys[(#[trigger] visit@[i]) as int], keys[k as int])
                    != Order::Greater,
            forall|j: int|
                high <= j < visit.len() ==> order(keys[(#[trigger] visit@[j]) as int], keys[k as int])
                    == Order::Greater,
        decreases high - low,
    {
        let middle: usize = low + (high - low) / 2;
        let found = path_order_of(&paths[visit[middle]], &paths[k], natural);
        let ghost pivot = keys[visit@[middle as int] as int];
        let ghost key = keys[k as int];
        assert(order(pivot, key) == found);
        if is_greater(found) {
            proof {
                assert(order(key, pivot) == order(pivot, key).reversed());
                assert forall|j: int| middle <= j < visit.len() implies order(
                    keys[(#[trigger] visit@[j]) as int],
                    key,
                ) == Order::Greater by {
                    if j > middle {
                        assert(precedes(keys, order, visit@[middle as int] as int, visit@[j] as int));
                        lemma_preorder_chain(order, key, pivot, keys[visit@[j] as int]);
                        assert(order(keys[visit@[j] as int], key) == order(
                            key,
                            keys[visit@[j] as int],
                        ).reversed());
                    }
                }
            }
            high = middle;
        } else {
            proof {
                assert forall|i: int| 0 <= i < middle + 1 implies order(
                    keys[(#[trigger] visit@[i]) as int],
                    key,
                ) != Order::Greater by {
                    if i < middle {
                        assert(precedes(keys, order, visit@[i] as int, visit@[middle as int] as int));
                        lemma_preorder_chain(order, keys[visit@[i] as int], pivot, key);
                    }
                }
            }
            low = middle + 1;
        }
    }
    low
}

/// The order in which to visit `paths` so that they come sorted under the
/// given sort mode, paths that compare equal staying in the order given.
pub fn sorted_order(paths: &Vec<Vec<String>>, natural: bool) -> (visit: Vec<usize>)
    ensures
        is_stable_sort(visit@, path_keys(paths@), path_relation(natural)),
{
    let mut keep: Vec<bool> = Vec::new();
    let mut k: usize = 0;
    while k < paths.len()
        invariant
            k <= paths.len(),
            keep.len() == k,
            forall|p: int| 0 <= p < k ==> keep@[p],
        decreases paths.len() - k,
    {
        keep.push(true);
        k = k + 1;
    }
    assert(keep@ =~= all_kept(paths@.len()));
    assert(path_keys(paths@).len() == paths@.len());
    sorted_selection(paths, &keep, natural)
}

/// Whether an outcome is `Greater`.
pub fn is_greater(order: Order) -> (greater: bool)
    ensures
        greater == (order == Order::Greater),
{
    match order {
        Order::Greater => true,
        _ => false,
    }
}

/// Of two different positions one has to come before the other, and never
/// both ways.
pub proof fn lemma_precedes_is_strict_total<K>(
    keys: Seq<K>,
    order: spec_fn(K, K) -> Order,
    x: int,
    y: int,
)
    requires
        is_total_preorder(order),
    ensures
        x != y ==> precedes(keys, order, x, y) || precedes(keys, order, y, x),
        !(precedes(keys, order, x, y) && precedes(keys, order, y, x)),
{
    assert(order(keys[y], keys[x]) == order(keys[x], keys[y]).reversed());
}

/// Two stable selections of the same keys agree on their first `upto`
/// items.
proof fn lemma_selections_agree_upto<K>(
    first: Seq<usize>,
    second: Seq<usize>,
    keys: Seq<K>,
    order: spec_fn(K, K) -> Order,
    keep: Seq<bool>,
    upto: int,
)
    requires
        is_total_preorder(order),
        is_stable_selection(first, keys, order, keep),
        is_stable_selection(second, keys, order, keep),
        0 <= upto <= first.len(),
    ensures
        forall|i: int| 0 <= i < upto ==> first[i] == second[i],
    decreases upto,
{
    if upto > 0 {
        let i = upto - 1;
        lemma_selections_agree_upto(first, second, keys, order, keep, i);
        let x = first[i];
        let y = second[i];
        if x != y {
            lemma_precedes_is_strict_total(keys, order, x as int, y as int);
            if precedes(keys, order, x as int, y as int) {
                assert(keep[x as int]);
                assert(second.contains(x));
                let m = choose|m: int| 0 <= m < second.len() && second[m] == x;
                if m < i {
                    assert(first[m] == second[m]);
                    assert(first[m] != first[i]);
                } else {
                    assert(precedes(keys, order, second[i] as int, second[m] as int));
                }
            } else {
                assert(keep[y as int]);
                assert(first.contains(y));
                let m = choose|m: int| 0 <= m < first.len() && first[m] == y;
                if m < i {
                    assert(first[m] == second[m]);
                    assert(second[m] != second[i]);
                } else {
                    assert(precedes(keys, order, first[i] as int, first[m] as int));
                }
            }
        }
    }
}

/// There is only one stable selection: two lists that both are the stable
/// selection of the same keys under the same order and marks are the same
/// list.
pub proof fn lemma_stable_selection_is_unique<K>(
    first: Seq<usize>,
    second: Seq<usize>,
    keys: Seq<K>,
    order: spec_fn(K, K) -> Order,
    keep: Seq<bool>,
)
    requires
        is_total_preorder(order),
        is_stable_selection(first, keys, order, keep),
        is_stable_selection(second, keys, order, keep),
    ensures
        first == second,
{
    lemma_selections_agree_upto(first, second, keys, order, keep, first.len() as int);
    assert(first =~= second);
}

} // verus!
