//! The natural order is a total preorder: every sequence equals itself,
//! swapping the sides reverses the outcome, and the order is transitive.

use vstd::prelude::*;
use crate::order::{Order, natural_order, is_digit, leading_number, after_number, lemma_digit_run_bounds};

verus! {

/// Every sequence compares equal to itself.
pub proof fn lemma_natural_order_reflexive(a: Seq<char>)
    ensures
        natural_order(a, a) == Order::Equal,
    decreases a.len(),
{
    if a.len() > 0 {
        if is_digit(a[0]) {
            lemma_digit_run_bounds(a);
            lemma_natural_order_reflexive(after_number(a));
        } else {
            lemma_natural_order_reflexive(a.skip(1));
        }
    }
}

/// Swapping the two sides reverses the outcome: the order is antisymmetric,
/// and any two sequences are comparable.
pub proof fn lemma_natural_order_antisymmetric(a: Seq<char>, b: Seq<char>)
    ensures
        natural_order(b, a) == natural_order(a, b).reversed(),
    decreases a.len(),
{
    if a.len() > 0 && b.len() > 0 {
        if is_digit(a[0]) && is_digit(b[0]) {
            if leading_number(a) == leading_number(b) {
                lemma_digit_run_bounds(a);
                lemma_natural_order_antisymmetric(after_number(a), after_number(b));
            }
        } else if a[0] == b[0] {
            lemma_natural_order_antisymmetric(a.skip(1), b.skip(1));
        }
    }
}

/// The order is transitive, and strict as soon as one of the two steps is.
pub proof fn lemma_natural_order_transitive(a: Seq<char>, b: Seq<char>, c: Seq<char>)
    requires
        natural_order(a, b) != Order::Greater,
        natural_order(b, c) != Order::Greater,
    ensures
        natural_order(a, c) != Order::Greater,
        natural_order(a, b) == Order::Less || natural_order(b, c) == Order::Less
            ==> natural_order(a, c) == Order::Less,
    decreases a.len(),
{
    if a.len() > 0 && b.len() > 0 && c.len() > 0 {
        if is_digit(a[0]) && is_digit(b[0]) && is_digit(c[0]) {
            if leading_number(a) == leading_number(b) && leading_number(b) == leading_number(c) {
                lemma_digit_run_bounds(a);
                lemma_natural_order_transitive(after_number(a), after_number(b), after_number(c));
            }
        } else if a[0] == b[0] && b[0] == c[0] {
            lemma_natural_order_transitive(a.skip(1), b.skip(1), c.skip(1));
        }
    }
}

/// Being equal in the natural order is an equivalence: two sequences equal
/// to a third are equal to each other.
pub proof fn lemma_natural_order_equal_transitive(a: Seq<char>, b: Seq<char>, c: Seq<char>)
    requires
        natural_order(a, b) == Order::Equal,
        natural_order(b, c) == Order::Equal,
    ensures
        natural_order(a, c) == Order::Equal,
{
    lemma_natural_order_transitive(a, b, c);
    lemma_natural_order_antisymmetric(a, b);
    lemma_natural_order_antisymmetric(b, c);
    lemma_natural_order_antisymmetric(a, c);
    lemma_natural_order_transitive(c, b, a);
}

} // verus!
