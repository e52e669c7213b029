//! The natural order on character sequences: digit runs are compared as the
//! numbers they write, everything else character by character.

use vstd::prelude::*;

verus! {

/// The outcome of a three-way comparison.
#[derive(Clone, Copy, Debug, PartialEq, Eq, Structural)]
pub enum Order {
    Less,
    Equal,
    Greater,
}

impl Order {
    /// The outcome of the same comparison with its sides swapped.
    pub open spec fn reversed(self) -> Order {
        match self {
            Order::Less => Order::Greater,
            Order::Equal => Order::Equal,
            Order::Greater => Order::Less,
        }
    }
}

/// How two integers compare.
pub open spec fn int_order(x: int, y: int) -> Order {
    if x < y {
        Order::Less
    } else if x == y {
        Order::Equal
    } else {
        Order::Greater
    }
}

/// How two sequences compare when one of them is exhausted: the one that ran
/// out first is the lesser.
pub open spec fn exhausted_order(left_len: nat, right_len: nat) -> Order
    recommends
        left_len == 0 || right_len == 0,
{
    if left_len == 0 && right_len == 0 {
        Order::Equal
    } else if left_len == 0 {
        Order::Less
    } else {
        Order::Greater
    }
}

/// Whether `c` is one of the ten ASCII digits.
pub open spec fn is_digit(c: char) -> bool {
    '0' <= c && c <= '9'
}

/// The number that the ASCII digit `c` stands for.
pub open spec fn digit_value(c: char) -> nat
    recommends
        is_digit(c),
{
    (c as int - '0' as int) as nat
}

/// The length of the longest prefix of `s` made of digits only.
pub open spec fn digit_run_len(s: Seq<char>) -> nat
    decreases s.len(),
{
    if s.len() > 0 && is_digit(s[0]) {
        1 + digit_run_len(s.skip(1))
    } else {
        0
    }
}

/// The number written by the digit string `digits`, most significant digit
/// first (zero for the empty string).
pub open spec fn number_value(digits: Seq<char>) -> nat
    decreases digits.len(),
{
    if digits.len() == 0 {
        0
    } else {
        10 * number_value(digits.drop_last()) + digit_value(digits.last())
    }
}

/// The number written by the digits that `s` starts with.
pub open spec fn leading_number(s: Seq<char>) -> nat {
    number_value(s.take(digit_run_len(s) as int))
}

/// What is left of `s` after the digits it starts with.
pub open spec fn after_number(s: Seq<char>) -> Seq<char> {
    s.skip(digit_run_len(s) as int)
}

/// A digit run never reaches past the end of the sequence.
pub proof fn lemma_digit_run_bounds(s: Seq<char>)
    ensures
        digit_run_len(s) <= s.len(),
        s.len() > 0 && is_digit(s[0]) ==> digit_run_len(s) >= 1,
        forall|i: int| 0 <= i < digit_run_len(s) ==> is_digit(#[trigger] s[i]),
        digit_run_len(s) < s.len() ==> !is_digit(s[digit_run_len(s) as int]),
    decreases s.len(),
{
    if s.len() > 0 && is_digit(s[0]) {
        let rest = s.skip(1);
        lemma_digit_run_bounds(rest);
        assert forall|i: int| 0 <= i < digit_run_len(s) implies is_digit(#[trigger] s[i]) by {
            if i > 0 {
                assert(s[i] == rest[i - 1]);
            }
        }
        if digit_run_len(s) < s.len() {
            assert(s[digit_run_len(s) as int] == rest[digit_run_len(rest) as int]);
        }
    }
}

/// The natural order of two character sequences.
///
/// The sequences are walked in lock-step. Where both stand at a digit, the
/// two maximal digit runs are compared by the numbers they write, whatever
/// their leading zeros; if the numbers agree the walk goes on behind the
/// runs. Anywhere else the two characters are compared by code point, and
/// the walk goes on only if they agree. A sequence that ends first is the
/// lesser.
pub open spec fn natural_order(left: Seq<char>, right: Seq<char>) -> Order
    decreases left.len(),
{
    if left.len() == 0 || right.len() == 0 {
        exhausted_order(left.len(), right.len())
    } else if is_digit(left[0]) && is_digit(right[0]) {
        if leading_number(left) != leading_number(right) {
            int_order(leading_number(left) as int, leading_number(right) as int)
        } else {
            proof {
                lemma_digit_run_bounds(left);
            }
            natural_order(after_number(left), after_number(right))
        }
    } else if left[0] != right[0] {
        int_order(left[0] as int, right[0] as int)
    } else {
        natural_order(left.skip(1), right.skip(1))
    }
}

} // verus!
