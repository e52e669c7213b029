//! Counting helpers: ceiling division and decimal widths.

use vstd::prelude::*;

verus! {

/// The quotient of `num` by `divider`, rounded up.
pub open spec fn ceil_div_spec(num: nat, divider: nat) -> nat
    recommends
        divider > 0,
{
    if num % divider == 0 {
        num / divider
    } else {
        num / divider + 1
    }
}

/// How many decimal digits it takes to write `n` (one for zero).
pub open spec fn decimal_width(n: nat) -> nat
    decreases n,
{
    if n < 10 {
        1
    } else {
        1 + decimal_width(n / 10)
    }
}

/// Whether `q` groups of `divider` items are enough to hold `num` items.
pub open spec fn covers(q: nat, divider: nat, num: nat) -> bool {
    q * divider >= num
}

/// `ceil_div_spec(num, divider)` is the least number of groups of `divider`
/// items that hold `num` items.
pub proof fn lemma_ceil_div_is_least_cover(num: nat, divider: nat)
    requires
        divider > 0,
    ensures
        covers(ceil_div_spec(num, divider), divider, num),
        forall|q: nat| #[trigger] covers(q, divider, num) ==> q >= ceil_div_spec(num, divider),
{
    let c = ceil_div_spec(num, divider);
    let d = divider as int;
    let n = num as int;
    vstd::arithmetic::div_mod::lemma_fundamental_div_mod(n, d);
    assert(c * divider >= num) by (nonlinear_arith)
        requires
            d > 0,
            n == d * (n / d) + n % d,
            0 <= n % d < d,
            c == if n % d == 0 { n / d } else { n / d + 1 },
            divider == d,
            num == n,
    ;
    assert forall|q: nat| #[trigger] covers(q, divider, num) implies q >= c by {
        assert(q >= c) by (nonlinear_arith)
            requires
                d > 0,
                q * d >= n,
                n == d * (n / d) + n % d,
                0 <= n % d < d,
                c == if n % d == 0 { n / d } else { n / d + 1 },
        ;
    }
}

/// Ceiling division of `num` by `divider`.
pub fn ceil_div(num: usize, divider: usize) -> (quotient: usize)
    requires
        divider > 0,
    ensures
        quotient == ceil_div_spec(num as nat, divider as nat),
{
    let q: usize = num / divider;
    if num % divider != 0 {
        assert(q < num) by (nonlinear_arith)
            requires
                q == num as int / divider as int,
                num as int % divider as int != 0,
                divider > 0,
        ;
        q + 1
    } else {
        q
    }
}

/// The number of decimal digits of `n`.
pub fn decimal_digits(n: usize) -> (width: usize)
    ensures
        width == decimal_width(n as nat),
        1 <= width <= 20,
{
    let mut rest: usize = n;
    let mut width: usize = 1;
    assert(pow10(0) == 1);
    assert(rest as nat * pow10(0) == n) by (nonlinear_arith)
        requires
            rest == n,
            pow10(0) == 1,
    ;
    while rest >= 10
        invariant
            1 <= width,
            width + decimal_width(rest as nat) == 1 + decimal_width(n as nat),
            rest as nat * pow10((width - 1) as nat) <= n,
            width <= 20,
        decreases rest,
    {
        proof {
            lemma_pow10_step(rest as nat, (width - 1) as nat, n as nat);
        }
        rest = rest / 10;
        width = width + 1;
    }
    width
}

/// Ten to the power `e`.
pub open spec fn pow10(e: nat) -> nat
    decreases e,
{
    if e == 0 {
        1
    } else {
        10 * pow10((e - 1) as nat)
    }
}

/// Taking one digit off a number that fits a machine word: the power of ten
/// that goes with what is left still fits under the number.
proof fn lemma_pow10_step(rest: nat, e: nat, n: nat)
    requires
        rest >= 10,
        rest * pow10(e) <= n,
        n <= usize::MAX,
    ensures
        (rest / 10) * pow10(e + 1) <= n,
        e + 1 < 20,
{
    let p = pow10(e);
    assert(pow10(e + 1) == 10 * p);
    assert((rest / 10) * (10 * p) <= rest * p) by (nonlinear_arith)
        requires
            rest >= 0,
            p >= 0,
    ;
    if e + 1 >= 20 {
        lemma_pow10_grows(19, e);
        assert(pow10(19) == 10000000000000000000nat) by {
            reveal_with_fuel(pow10, 20);
        }
        assert(rest * p >= 10 * pow10(19)) by (nonlinear_arith)
            requires
                rest >= 10,
                p >= pow10(19),
        ;
    }
}

/// `pow10` never shrinks as the exponent grows.
pub proof fn lemma_pow10_grows(a: nat, b: nat)
    requires
        a <= b,
    ensures
        pow10(a) <= pow10(b),
    decreases b,
{
    if a < b {
        lemma_pow10_grows(a, (b - 1) as nat);
    }
}

} // verus!
