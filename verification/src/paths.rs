//! Orders on paths. A path is the list of its components, outermost first;
//! two paths are compared component by component, and a path that is a
//! prefix of another comes first.

use vstd::prelude::*;
use crate::order::{Order, int_order, natural_order};
use crate::order_laws::{lemma_natural_order_reflexive, lemma_natural_order_antisymmetric,
    lemma_natural_order_transitive};
use crate::lexical::{is_total_preorder, lexical_order, lemma_lexical_is_total_preorder};
use crate::text::{chars_of, lowercase_of, to_lowercase, views_of};
use crate::natsort::{natural_order_of, ordering_of, to_ordering};
use std::cmp::Ordering;

verus! {

/// The order of two characters by code point.
pub open spec fn code_point_order() -> spec_fn(char, char) -> Order {
    |x: char, y: char| int_order(x as int, y as int)
}

/// The raw order of two strings: character by character, by code point,
/// which is also the order of their UTF-8 bytes.
pub open spec fn raw_order(left: Seq<char>, right: Seq<char>) -> Order {
    lexical_order(left, right, code_point_order())
}

/// The raw order, as a relation on strings.
pub open spec fn raw_name_order() -> spec_fn(Seq<char>, Seq<char>) -> Order {
    |x: Seq<char>, y: Seq<char>| raw_order(x, y)
}

/// The natural order of the lowercase forms, as a relation on strings.
pub open spec fn natural_name_order() -> spec_fn(Seq<char>, Seq<char>) -> Order {
    |x: Seq<char>, y: Seq<char>| natural_order(lowercase_of(x), lowercase_of(y))
}

/// The order on path components that a sort mode uses: natural order
/// without regard to case, or raw order.
pub open spec fn name_order(natural: bool) -> spec_fn(Seq<char>, Seq<char>) -> Order {
    if natural {
        natural_name_order()
    } else {
        raw_name_order()
    }
}

/// The order of two paths under a sort mode.
pub open spec fn path_order(left: Seq<Seq<char>>, right: Seq<Seq<char>>, natural: bool) -> Order {
    lexical_order(left, right, name_order(natural))
}

/// The natural order of two paths.
pub open spec fn natural_path_order(left: Seq<Seq<char>>, right: Seq<Seq<char>>) -> Order {
    path_order(left, right, true)
}

/// The order on paths under a sort mode, as a relation.
pub open spec fn path_relation(natural: bool) -> spec_fn(Seq<Seq<char>>, Seq<Seq<char>>) -> Order {
    |x: Seq<Seq<char>>, y: Seq<Seq<char>>| path_order(x, y, natural)
}

/// Code points are totally ordered.
pub proof fn lemma_code_point_order_total()
    ensures
        is_total_preorder(code_point_order()),
{
}

/// The raw order on strings is a total preorder.
pub proof fn lemma_raw_order_total()
    ensures
        is_total_preorder(raw_name_order()),
{
    lemma_code_point_order_total();
    lemma_lexical_is_total_preorder(code_point_order());
    let lifted = |a: Seq<char>, b: Seq<char>| lexical_order(a, b, code_point_order());
    let raw = raw_name_order();
    assert forall|x: Seq<char>, y: Seq<char>| #[trigger] raw(x, y) == lifted(x, y) by {}
    assert(is_total_preorder(raw)) by {
        assert forall|x: Seq<char>| #[trigger] raw(x, x) == Order::Equal by {
            assert(lifted(x, x) == Order::Equal);
        }
        assert forall|x: Seq<char>, y: Seq<char>| #[trigger] raw(y, x) == raw(x, y).reversed() by {
            assert(lifted(y, x) == lifted(x, y).reversed());
        }
        assert forall|x: Seq<char>, y: Seq<char>, z: Seq<char>|
            #![trigger raw(x, y), raw(y, z)]
            raw(x, y) != Order::Greater && raw(y, z) != Order::Greater implies {
            &&& raw(x, z) != Order::Greater
            &&& raw(x, y) == Order::Less || raw(y, z) == Order::Less ==> raw(x, z) == Order::Less
        } by {
            assert(lifted(x, y) == raw(x, y) && lifted(y, z) == raw(y, z));
        }
    }
}

/// The natural order without regard to case is a total preorder on strings.
pub proof fn lemma_natural_name_order_total()
    ensures
        is_total_preorder(natural_name_order()),
{
    let f = natural_name_order();
    assert forall|x: Seq<char>| #[trigger] f(x, x) == Order::Equal by {
        lemma_natural_order_reflexive(lowercase_of(x));
    }
    assert forall|x: Seq<char>, y: Seq<char>| #[trigger] f(y, x) == f(x, y).reversed() by {
        lemma_natural_order_antisymmetric(lowercase_of(x), lowercase_of(y));
    }
    assert forall|x: Seq<char>, y: Seq<char>, z: Seq<char>|
        #![trigger f(x, y), f(y, z)]
        f(x, y) != Order::Greater && f(y, z) != Order::Greater implies {
        &&& f(x, z) != Order::Greater
        &&& f(x, y) == Order::Less || f(y, z) == Order::Less ==> f(x, z) == Order::Less
    } by {
        lemma_natural_order_transitive(lowercase_of(x), lowercase_of(y), lowercase_of(z));
    }
}

/// Under either sort mode the order on path components is a total preorder.
pub proof fn lemma_name_order_total(natural: bool)
    ensures
        is_total_preorder(name_order(natural)),
{
    if natural {
        lemma_natural_name_order_total();
    } else {
        lemma_raw_order_total();
    }
}

/// Under either sort mode the order on paths is a total preorder: every path
/// equals itself, swapping the sides reverses the outcome, and the order is
/// transitive.
pub proof fn lemma_path_order_total(natural: bool)
    ensures
        is_total_preorder(path_relation(natural)),
{
    lemma_name_order_total(natural);
    lemma_lexical_is_total_preorder(name_order(natural));
    let lifted = |a: Seq<Seq<char>>, b: Seq<Seq<char>>| lexical_order(a, b, name_order(natural));
    let rel = path_relation(natural);
    assert forall|x: Seq<Seq<char>>| #[trigger] rel(x, x) == Order::Equal by {
        assert(lifted(x, x) == Order::Equal);
    }
    assert forall|x: Seq<Seq<char>>, y: Seq<Seq<char>>| #[trigger]
        rel(y, x) == rel(x, y).reversed() by {
        assert(lifted(y, x) == lifted(x, y).reversed());
    }
    assert forall|x: Seq<Seq<char>>, y: Seq<Seq<char>>, z: Seq<Seq<char>>|
        #![trigger rel(x, y), rel(y, z)]
        rel(x, y) != Order::Greater && rel(y, z) != Order::Greater implies {
        &&& rel(x, z) != Order::Greater
        &&& rel(x, y) == Order::Less || rel(y, z) == Order::Less ==> rel(x, z) == Order::Less
    } by {
        assert(lifted(x, y) == rel(x, y) && lifted(y, z) == rel(y, z));
    }
}

/// The raw order of two character strings.
pub fn raw_order_of(left: &[char], right: &[char]) -> (order: Order)
    ensures
        order == raw_order(left@, right@),
{
    let mut i: usize = 0;
    assert(left@.skip(0) =~= left@ && right@.skip(0) =~= right@);
    while i < left.len() && i < right.len()
        invariant
            i <= left.len(),
            i <= right.len(),
            raw_order(left@, right@) == raw_order(left@.skip(i as int), right@.skip(i as int)),
        decreases left.len() - i,
    {
        let ghost l = left@.skip(i as int);
        let ghost r = right@.skip(i as int);
        assert(l[0] == left@[i as int] && r[0] == right@[i as int]);
        if left[i] != right[i] {
            return if left[i] < right[i] {
                Order::Less
            } else {
                Order::Greater
            };
        }
        assert(l.skip(1) =~= left@.skip(i as int + 1));
        assert(r.skip(1) =~= right@.skip(i as int + 1));
        i = i + 1;
    }
    if i < right.len() {
        Order::Less
    } else if i < left.len() {
        Order::Greater
    } else {
        Order::Equal
    }
}

/// The order of two path components under a sort mode.
pub fn name_order_of(left: &str, right: &str, natural: bool) -> (order: Order)
    ensures
        order == name_order(natural)(left@, right@),
{
    if natural {
        let left_folded = to_lowercase(left);
        let right_folded = to_lowercase(right);
        let left_chars = chars_of(left_folded.as_str());
        let right_chars = chars_of(right_folded.as_str());
        natural_order_of(left_chars.as_slice(), right_chars.as_slice())
    } else {
        let left_chars = chars_of(left);
        let right_chars = chars_of(right);
        raw_order_of(left_chars.as_slice(), right_chars.as_slice())
    }
}

/// The order of two paths under a sort mode, each given by its components.
pub fn path_order_of(left: &Vec<String>, right: &Vec<String>, natural: bool) -> (order: Order)
    ensures
        order == path_order(views_of(left@), views_of(right@), natural),
{
    let ghost l = views_of(left@);
    let ghost r = views_of(right@);
    let mut i: usize = 0;
    assert(l.skip(0) =~= l && r.skip(0) =~= r);
    while i < left.len() && i < right.len()
        invariant
            l == views_of(left@),
            r == views_of(right@),
            i <= left.len(),
            i <= right.len(),
            path_order(l, r, natural) == path_order(l.skip(i as int), r.skip(i as int), natural),
        decreases left.len() - i,
    {
        assert(l.skip(i as int)[0] == left@[i as int]@);
        assert(r.skip(i as int)[0] == right@[i as int]@);
        let order = name_order_of(left[i].as_str(), right[i].as_str(), natural);
        match order {
            Order::Equal => {},
            _ => {
                return order;
            },
        }
        assert(l.skip(i as int).skip(1) =~= l.skip(i as int + 1));
        assert(r.skip(i as int).skip(1) =~= r.skip(i as int + 1));
        i = i + 1;
    }
    if i < right.len() {
        Order::Less
    } else if i < left.len() {
        Order::Greater
    } else {
        Order::Equal
    }
}

/// Compares two paths in natural order, component by component and without
/// regard to case; a path that is a prefix of the other comes first.
pub fn natural_paths_cmp(a: &Vec<String>, b: &Vec<String>) -> (ordering: Ordering)
    ensures
        ordering == ordering_of(natural_path_order(views_of(a@), views_of(b@))),
{
    to_ordering(path_order_of(a, b, true))
}

} // verus!
