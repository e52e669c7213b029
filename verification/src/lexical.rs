//! Lifting an order on items to sequences of items, first difference first.

use vstd::prelude::*;
use crate::order::{Order, exhausted_order};

verus! {

/// Whether `item_order` is a total preorder: every item equals itself,
/// swapping the sides reverses the outcome, and the order is transitive and
/// strict as soon as one step is.
pub open spec fn is_total_preorder<T>(item_order: spec_fn(T, T) -> Order) -> bool {
    &&& forall|x: T| #[trigger] item_order(x, x) == Order::Equal
    &&& forall|x: T, y: T| #[trigger] item_order(y, x) == item_order(x, y).reversed()
    &&& forall|x: T, y: T, z: T|
        #![trigger item_order(x, y), item_order(y, z)]
        item_order(x, y) != Order::Greater && item_order(y, z) != Order::Greater ==> {
            &&& item_order(x, z) != Order::Greater
            &&& item_order(x, y) == Order::Less || item_order(y, z) == Order::Less
                ==> item_order(x, z) == Order::Less
        }
}

/// The order of two sequences by their first differing items; a sequence
/// that is a prefix of the other is the lesser.
pub open spec fn lexical_order<T>(
    left: Seq<T>,
    right: Seq<T>,
    item_order: spec_fn(T, T) -> Order,
) -> Order
    decreases left.len(),
{
    if left.len() == 0 || right.len() == 0 {
        exhausted_order(left.len(), right.len())
    } else if item_order(left[0], right[0]) != Order::Equal {
        item_order(left[0], right[0])
    } else {
        lexical_order(left.skip(1), right.skip(1), item_order)
    }
}

/// Under a reflexive item order every sequence equals itself.
pub proof fn lemma_lexical_reflexive<T>(a: Seq<T>, item_order: spec_fn(T, T) -> Order)
    requires
        is_total_preorder(item_order),
    ensures
        lexical_order(a, a, item_order) == Order::Equal,
    decreases a.len(),
{
    if a.len() > 0 {
        lemma_lexical_reflexive(a.skip(1), item_order);
    }
}

/// Swapping the sides reverses the lexical outcome.
pub proof fn lemma_lexical_antisymmetric<T>(
    a: Seq<T>,
    b: Seq<T>,
    item_order: spec_fn(T, T) -> Order,
)
    requires
        is_total_preorder(item_order),
    ensures
        lexical_order(b, a, item_order) == lexical_order(a, b, item_order).reversed(),
    decreases a.len(),
{
    if a.len() > 0 && b.len() > 0 {
        assert(item_order(b[0], a[0]) == item_order(a[0], b[0]).reversed());
        lemma_lexical_antisymmetric(a.skip(1), b.skip(1), item_order);
    }
}

/// The lexical order is transitive, and strict as soon as one step is.
pub proof fn lemma_lexical_transitive<T>(
    a: Seq<T>,
    b: Seq<T>,
    c: Seq<T>,
    item_order: spec_fn(T, T) -> Order,
)
    requires
        is_total_preorder(item_order),
        lexical_order(a, b, item_order) != Order::Greater,
        lexical_order(b, c, item_order) != Order::Greater,
    ensures
        lexical_order(a, c, item_order) != Order::Greater,
        lexical_order(a, b, item_order) == Order::Less || lexical_order(b, c, item_order)
            == Order::Less ==> lexical_order(a, c, item_order) == Order::Less,
    decreases a.len(),
{
    if a.len() > 0 && b.len() > 0 && c.len() > 0 {
        let ab = item_order(a[0], b[0]);
        let bc = item_order(b[0], c[0]);
        let ac = item_order(a[0], c[0]);
        assert(ab != Order::Greater && bc != Order::Greater);
        if ab == Order::Equal && bc == Order::Equal {
            assert(item_order(b[0], a[0]) == ab.reversed());
            assert(item_order(c[0], b[0]) == bc.reversed());
            assert(item_order(c[0], a[0]) == ac.reversed());
            assert(item_order(c[0], b[0]) != Order::Greater && item_order(b[0], a[0])
                != Order::Greater);
            assert(ac == Order::Equal);
            lemma_lexical_transitive(a.skip(1), b.skip(1), c.skip(1), item_order);
        }
    }
}

/// The lexical lifting of a total preorder is a total preorder.
pub proof fn lemma_lexical_is_total_preorder<T>(item_order: spec_fn(T, T) -> Order)
    requires
        is_total_preorder(item_order),
    ensures
        is_total_preorder(|a: Seq<T>, b: Seq<T>| lexical_order(a, b, item_order)),
{
    let lifted = |a: Seq<T>, b: Seq<T>| lexical_order(a, b, item_order);
    assert forall|x: Seq<T>| #[trigger] lifted(x, x) == Order::Equal by {
        lemma_lexical_reflexive(x, item_order);
    }
    assert forall|x: Seq<T>, y: Seq<T>| #[trigger] lifted(y, x) == lifted(x, y).reversed() by {
        lemma_lexical_antisymmetric(x, y, item_order);
    }
    assert forall|x: Seq<T>, y: Seq<T>, z: Seq<T>|
        #![trigger lifted(x, y), lifted(y, z)]
        lifted(x, y) != Order::Greater && lifted(y, z) != Order::Greater implies {
        &&& lifted(x, z) != Order::Greater
        &&& lifted(x, y) == Order::Less || lifted(y, z) == Order::Less ==> lifted(x, z)
            == Order::Less
    } by {
        lemma_lexical_transitive(x, y, z, item_order);
    }
}

/// A sequence comes before every longer sequence that it starts: of two
/// paths with a shared prefix and unequal lengths the shorter is the lesser.
pub proof fn lemma_prefix_is_lesser<T>(a: Seq<T>, rest: Seq<T>, item_order: spec_fn(T, T) -> Order)
    requires
        is_total_preorder(item_order),
        rest.len() > 0,
    ensures
        lexical_order(a, a + rest, item_order) == Order::Less,
    decreases a.len(),
{
    if a.len() > 0 {
        assert((a + rest)[0] == a[0]);
        assert((a + rest).skip(1) =~= a.skip(1) + rest);
        lemma_prefix_is_lesser(a.skip(1), rest, item_order);
    } else {
        assert(a + rest =~= rest);
    }
}

/// What two sequences start with in common does not count: they compare as
/// what follows it does.
pub proof fn lemma_common_prefix<T>(
    prefix: Seq<T>,
    a: Seq<T>,
    b: Seq<T>,
    item_order: spec_fn(T, T) -> Order,
)
    requires
        is_total_preorder(item_order),
    ensures
        lexical_order(prefix + a, prefix + b, item_order) == lexical_order(a, b, item_order),
    decreases prefix.len(),
{
    if prefix.len() > 0 {
        assert((prefix + a)[0] == prefix[0] && (prefix + b)[0] == prefix[0]);
        assert((prefix + a).skip(1) =~= prefix.skip(1) + a);
        assert((prefix + b).skip(1) =~= prefix.skip(1) + b);
        lemma_common_prefix(prefix.skip(1), a, b, item_order);
    } else {
        assert(prefix + a =~= a && prefix + b =~= b);
    }
}

} // verus!
