//! Writing numbers in decimal, padded with zeros to a given width.

use vstd::prelude::*;
use crate::calc::decimal_width;
use crate::text::push_char;

verus! {

/// The character for the digit value `d`.
pub open spec fn digit_char(d: nat) -> char
    recommends
        d < 10,
{
    (('0' as nat) + d) as char
}

/// The decimal writing of `n`, without leading zeros.
pub open spec fn decimal(n: nat) -> Seq<char>
    decreases n,
{
    if n < 10 {
        seq![digit_char(n)]
    } else {
        decimal(n / 10).push(digit_char(n % 10))
    }
}

/// `count` zeros.
pub open spec fn zeros(count: nat) -> Seq<char> {
    Seq::new(count, |i: int| '0')
}

/// The decimal writing of `n`, with as many zeros in front as it takes to
/// reach `width` characters. A number that is wider than `width` is written
/// in full.
pub open spec fn zero_padded(n: nat, width: nat) -> Seq<char> {
    if decimal(n).len() < width {
        zeros((width - decimal(n).len()) as nat) + decimal(n)
    } else {
        decimal(n)
    }
}

/// The decimal writing of `n` has `decimal_width(n)` characters.
pub proof fn lemma_decimal_len(n: nat)
    ensures
        decimal(n).len() == decimal_width(n),
    decreases n,
{
    if n >= 10 {
        lemma_decimal_len(n / 10);
    }
}

/// A padded number is at least `width` characters long, and exactly that
/// where the number fits.
pub proof fn lemma_zero_padded_len(n: nat, width: nat)
    ensures
        zero_padded(n, width).len() == if decimal_width(n) < width {
            width
        } else {
            decimal_width(n)
        },
{
    lemma_decimal_len(n);
}

/// The digits of `n`, least significant first.
fn reversed_digits(n: usize) -> (digits: Vec<char>)
    ensures
        digits@.reverse() == decimal(n as nat),
        digits@.len() == decimal_width(n as nat),
{
    let mut digits: Vec<char> = Vec::new();
    let mut rest: usize = n;
    assert(decimal(rest as nat) + digits@.reverse() =~= decimal(n as nat));
    while rest >= 10
        invariant
            decimal(rest as nat) + digits@.reverse() == decimal(n as nat),
        decreases rest,
    {
        let digit: u8 = (rest % 10) as u8;
        let c: char = (48u8 + digit) as char;
        assert(c == digit_char((rest % 10) as nat));
        let ghost before = digits@;
        digits.push(c);
        assert(digits@.reverse() =~= seq![c] + before.reverse());
        assert(decimal(rest as nat) == decimal((rest / 10) as nat).push(c));
        assert(decimal((rest / 10) as nat) + digits@.reverse() =~= decimal(rest as nat)
            + before.reverse());
        rest = rest / 10;
    }
    let c: char = (48u8 + rest as u8) as char;
    assert(c == digit_char(rest as nat));
    let ghost before = digits@;
    digits.push(c);
    assert(digits@.reverse() =~= seq![c] + before.reverse());
    proof {
        lemma_decimal_len(n as nat);
    }
    digits
}

/// Appends to `out` the number `n`, padded with zeros to `width` characters.
pub fn push_padded(out: &mut String, n: usize, width: usize)
    ensures
        final(out)@ == old(out)@ + zero_padded(n as nat, width as nat),
{
    let digits = reversed_digits(n);
    let ghost start = out@;
    let mut pad: usize = 0;
    let missing: usize = if digits.len() < width {
        width - digits.len()
    } else {
        0
    };
    while pad < missing
        invariant
            pad <= missing,
            out@ == start + zeros(pad as nat),
        decreases missing - pad,
    {
        push_char(out, '0');
        assert(zeros(pad as nat).push('0') =~= zeros((pad + 1) as nat));
        assert(out@ =~= start + zeros((pad + 1) as nat));
        pad = pad + 1;
    }
    let ghost padded = out@;
    let mut left: usize = digits.len();
    assert(digits@.reverse().take(0) =~= Seq::<char>::empty());
    assert(padded + Seq::<char>::empty() =~= padded);
    while left > 0
        invariant
            left <= digits.len(),
            out@ == padded + digits@.reverse().take(digits.len() - left),
        decreases left,
    {
        left = left - 1;
        push_char(out, digits[left]);
        assert(digits@.reverse().take(digits.len() - left) =~= digits@.reverse().take(
            digits.len() - left - 1,
        ).push(digits@[left as int]));
        assert(out@ =~= padded + digits@.reverse().take(digits.len() - left));
    }
    assert(digits@.reverse().take(digits.len() as int) =~= digits@.reverse());
    assert(out@ =~= start + zero_padded(n as nat, width as nat));
}

/// The number `n` as a string, padded with zeros to `width` characters.
pub fn padded_number(n: usize, width: usize) -> (s: String)
    ensures
        s@ == zero_padded(n as nat, width as nat),
{
    let mut s = String::new();
    push_padded(&mut s, n, width);
    assert(Seq::<char>::empty() + zero_padded(n as nat, width as nat) =~= zero_padded(
        n as nat,
        width as nat,
    ));
    s
}

} // verus!
