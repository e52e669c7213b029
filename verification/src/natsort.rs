//! Natural-order comparison of strings, executable.

use vstd::prelude::*;
use std::cmp::Ordering;
use crate::text::{chars_of, lowercase_of, to_lowercase};
use crate::calc::{pow10, lemma_pow10_grows};
use crate::order::{Order, int_order, is_digit, digit_value, digit_run_len, number_value,
    after_number, natural_order, lemma_digit_run_bounds};

verus! {

/// The number written by `digits`, a sequence of digit values with the most
/// significant first.
pub open spec fn digits_value(digits: Seq<u8>) -> nat
    decreases digits.len(),
{
    if digits.len() == 0 {
        0
    } else {
        10 * digits_value(digits.drop_last()) + digits.last() as nat
    }
}

/// Whether `digits` is the shortest way to write a number: every item is a
/// digit value, and the first one, if any, is not zero.
pub open spec fn is_canonical(digits: Seq<u8>) -> bool {
    &&& forall|i: int| 0 <= i < digits.len() ==> #[trigger] digits[i] <= 9
    &&& digits.len() > 0 ==> digits[0] != 0
}

/// A canonical digit sequence of length `n > 0` writes a number of exactly
/// `n` digits.
pub proof fn lemma_canonical_bounds(digits: Seq<u8>)
    requires
        is_canonical(digits),
    ensures
        digits.len() == 0 ==> digits_value(digits) == 0,
        digits.len() > 0 ==> pow10((digits.len() - 1) as nat) <= digits_value(digits) < pow10(
            digits.len(),
        ),
    decreases digits.len(),
{
    let n = digits.len();
    if n == 1 {
        assert(digits.drop_last().len() == 0);
        assert(digits_value(digits.drop_last()) == 0);
        assert(digits.last() == digits[0]);
        assert(pow10(0) == 1);
        assert(pow10(1) == 10) by {
            reveal_with_fuel(pow10, 2);
        }
    } else if n > 1 {
        let prefix = digits.drop_last();
        assert(is_canonical(prefix)) by {
            assert forall|i: int| 0 <= i < prefix.len() implies #[trigger] prefix[i] <= 9 by {
                assert(prefix[i] == digits[i]);
            }
            assert(prefix[0] == digits[0]);
        }
        lemma_canonical_bounds(prefix);
        assert(pow10((n - 1) as nat) == 10 * pow10((n - 2) as nat));
        assert(pow10(n) == 10 * pow10((n - 1) as nat));
    }
}

/// Of two canonical digit sequences the longer writes the larger number.
pub proof fn lemma_longer_is_larger(short: Seq<u8>, long: Seq<u8>)
    requires
        is_canonical(short),
        is_canonical(long),
        short.len() < long.len(),
    ensures
        digits_value(short) < digits_value(long),
{
    lemma_canonical_bounds(short);
    lemma_canonical_bounds(long);
    lemma_pow10_grows(short.len(), (long.len() - 1) as nat);
    if short.len() == 0 {
        lemma_pow10_grows(0, (long.len() - 1) as nat);
        assert(pow10(0) == 1);
    }
}

/// Two digit sequences of one length compare as their first differing
/// digits do.
pub proof fn lemma_first_difference_decides(x: Seq<u8>, y: Seq<u8>, at: int)
    requires
        x.len() == y.len(),
        0 <= at < x.len(),
        forall|i: int| 0 <= i < x.len() ==> #[trigger] x[i] <= 9,
        forall|i: int| 0 <= i < y.len() ==> #[trigger] y[i] <= 9,
        forall|i: int| 0 <= i < at ==> x[i] == y[i],
        x[at] < y[at],
    ensures
        digits_value(x) < digits_value(y),
    decreases x.len(),
{
    let px = x.drop_last();
    let py = y.drop_last();
    if at == x.len() - 1 {
        assert(px =~= py);
    } else {
        assert forall|i: int| 0 <= i < px.len() implies #[trigger] px[i] <= 9 by {
            assert(px[i] == x[i]);
        }
        assert forall|i: int| 0 <= i < py.len() implies #[trigger] py[i] <= 9 by {
            assert(py[i] == y[i]);
        }
        assert forall|i: int| 0 <= i < at implies px[i] == py[i] by {
            assert(px[i] == x[i] && py[i] == y[i]);
        }
        assert(px[at] == x[at] && py[at] == y[at]);
        lemma_first_difference_decides(px, py, at);
    }
}

/// Whether `c` is an ASCII digit.
pub fn is_digit_char(c: char) -> (digit: bool)
    ensures
        digit == is_digit(c),
{
    '0' <= c && c <= '9'
}

/// How two numbers compare, each given by its canonical digits.
pub fn compare_numbers(x: &Vec<u8>, y: &Vec<u8>) -> (order: Order)
    requires
        is_canonical(x@),
        is_canonical(y@),
    ensures
        order == int_order(digits_value(x@) as int, digits_value(y@) as int),
{
    if x.len() < y.len() {
        proof {
            lemma_longer_is_larger(x@, y@);
        }
        return Order::Less;
    }
    if x.len() > y.len() {
        proof {
            lemma_longer_is_larger(y@, x@);
        }
        return Order::Greater;
    }
    let mut i: usize = 0;
    while i < x.len()
        invariant
            x.len() == y.len(),
            i <= x.len(),
            is_canonical(x@),
            is_canonical(y@),
            forall|k: int| 0 <= k < i ==> x@[k] == y@[k],
        decreases x.len() - i,
    {
        if x[i] < y[i] {
            proof {
                lemma_first_difference_decides(x@, y@, i as int);
            }
            return Order::Less;
        }
        if x[i] > y[i] {
            proof {
                lemma_first_difference_decides(y@, x@, i as int);
            }
            return Order::Greater;
        }
        i = i + 1;
    }
    assert(x@ =~= y@);
    Order::Equal
}

/// A prefix of digits that is followed by something else, or by nothing, is
/// the whole digit run.
pub proof fn lemma_digit_run_is(s: Seq<char>, n: nat)
    requires
        n <= s.len(),
        forall|i: int| 0 <= i < n ==> is_digit(#[trigger] s[i]),
        n < s.len() ==> !is_digit(s[n as int]),
    ensures
        digit_run_len(s) == n,
    decreases n,
{
    if n > 0 {
        let rest = s.skip(1);
        assert forall|i: int| 0 <= i < n - 1 implies is_digit(#[trigger] rest[i]) by {
            assert(rest[i] == s[i + 1]);
        }
        if n < s.len() {
            assert(rest[n - 1] == s[n as int]);
        }
        lemma_digit_run_is(rest, (n - 1) as nat);
    }
}

/// Reads the number that starts at `start`: the longest run of digits from
/// there on. Returns its canonical digits, leading zeros dropped, and the
/// position behind the run. There is no limit on the number's size.
pub fn take_num(chars: &[char], start: usize) -> (taken: (Vec<u8>, usize))
    requires
        start <= chars.len(),
    ensures
        taken.1 == start + digit_run_len(chars@.skip(start as int)),
        taken.1 <= chars.len(),
        is_canonical(taken.0@),
        digits_value(taken.0@) == number_value(chars@.subrange(start as int, taken.1 as int)),
{
    let mut digits: Vec<u8> = Vec::new();
    let mut pos: usize = start;
    while pos < chars.len() && is_digit_char(chars[pos])
        invariant
            start <= pos <= chars.len(),
            forall|k: int| start <= k < pos ==> is_digit(#[trigger] chars@[k]),
            is_canonical(digits@),
            digits_value(digits@) == number_value(chars@.subrange(start as int, pos as int)),
        decreases chars.len() - pos,
    {
        let c: char = chars[pos];
        let digit: u8 = (c as u32 - '0' as u32) as u8;
        let ghost before = chars@.subrange(start as int, pos as int);
        let ghost after = chars@.subrange(start as int, pos as int + 1);
        assert(after.drop_last() =~= before);
        assert(after.last() == c);
        assert(digit as nat == digit_value(c));
        if digit != 0 || digits.len() != 0 {
            let ghost old_digits = digits@;
            digits.push(digit);
            assert(digits@.drop_last() =~= old_digits);
            assert(is_canonical(digits@)) by {
                assert forall|i: int| 0 <= i < digits@.len() implies #[trigger] digits@[i] <= 9 by {
                    if i < old_digits.len() {
                        assert(digits@[i] == old_digits[i]);
                    }
                }
                if old_digits.len() > 0 {
                    assert(digits@[0] == old_digits[0]);
                }
            }
        }
        pos = pos + 1;
    }
    proof {
        let tail = chars@.skip(start as int);
        assert forall|i: int| 0 <= i < pos - start implies is_digit(#[trigger] tail[i]) by {
            assert(tail[i] == chars@[start + i]);
        }
        if pos < chars.len() {
            assert(tail[pos - start] == chars@[pos as int]);
        }
        lemma_digit_run_is(tail, (pos - start) as nat);
    }
    (digits, pos)
}

/// The natural order of two character strings, compared as they are written.
pub fn natural_order_of(left: &[char], right: &[char]) -> (order: Order)
    ensures
        order == natural_order(left@, right@),
{
    let mut i: usize = 0;
    let mut j: usize = 0;
    assert(left@.skip(0) =~= left@ && right@.skip(0) =~= right@);
    loop
        invariant
            i <= left.len(),
            j <= right.len(),
            natural_order(left@, right@) == natural_order(
                left@.skip(i as int),
                right@.skip(j as int),
            ),
        decreases left.len() - i,
    {
        let ghost l = left@.skip(i as int);
        let ghost r = right@.skip(j as int);
        if i == left.len() {
            return if j == right.len() {
                Order::Equal
            } else {
                Order::Less
            };
        }
        if j == right.len() {
            return Order::Greater;
        }
        let lc: char = left[i];
        let rc: char = right[j];
        assert(l[0] == lc && r[0] == rc);
        if is_digit_char(lc) && is_digit_char(rc) {
            let (lnum, lend) = take_num(left, i);
            let (rnum, rend) = take_num(right, j);
            proof {
                lemma_digit_run_bounds(l);
                lemma_digit_run_bounds(r);
                assert(l.take(digit_run_len(l) as int) =~= left@.subrange(i as int, lend as int));
                assert(r.take(digit_run_len(r) as int) =~= right@.subrange(j as int, rend as int));
                assert(after_number(l) =~= left@.skip(lend as int));
                assert(after_number(r) =~= right@.skip(rend as int));
            }
            let order = compare_numbers(&lnum, &rnum);
            match order {
                Order::Equal => {},
                _ => {
                    return order;
                },
            }
            i = lend;
            j = rend;
        } else {
            if lc != rc {
                return if lc < rc {
                    Order::Less
                } else {
                    Order::Greater
                };
            }
            assert(l.skip(1) =~= left@.skip(i as int + 1));
            assert(r.skip(1) =~= right@.skip(j as int + 1));
            i = i + 1;
            j = j + 1;
        }
    }
}

/// The standard library's name for an outcome.
pub open spec fn ordering_of(order: Order) -> Ordering {
    match order {
        Order::Less => Ordering::Less,
        Order::Equal => Ordering::Equal,
        Order::Greater => Ordering::Greater,
    }
}

/// Converts an outcome to the standard library's type.
pub fn to_ordering(order: Order) -> (ordering: Ordering)
    ensures
        ordering == ordering_of(order),
{
    match order {
        Order::Less => Ordering::Less,
        Order::Equal => Ordering::Equal,
        Order::Greater => Ordering::Greater,
    }
}

/// Compares two strings in natural order, exactly as they are written: no
/// case folding takes place.
pub fn natural_cmp_as_written(left: &str, right: &str) -> (ordering: Ordering)
    ensures
        ordering == ordering_of(natural_order(left@, right@)),
{
    let left_chars = chars_of(left);
    let right_chars = chars_of(right);
    to_ordering(natural_order_of(left_chars.as_slice(), right_chars.as_slice()))
}

/// Compares two strings in natural order, ignoring case: both are folded to
/// lowercase first, then whole numbers are compared in place of single
/// digits, so that "Folder 2" comes before "Folder 10".
pub fn natural_cmp(left: &str, right: &str) -> (ordering: Ordering)
    ensures
        ordering == ordering_of(natural_order(lowercase_of(left@), lowercase_of(right@))),
{
    let left_folded = to_lowercase(left);
    let right_folded = to_lowercase(right);
    natural_cmp_as_written(left_folded.as_str(), right_folded.as_str())
}

} // verus!
