//! What holds of the names given to pages: numbers padded to one width sort
//! as the numbers do, so the pages of a chapter sort by rank, and no two of
//! them share a name.

use vstd::prelude::*;
use crate::build_vol::page_path;
use crate::calc::decimal_width;
use crate::lexical::{lemma_common_prefix, lemma_lexical_reflexive};
use crate::numbering::{decimal, digit_char, lemma_decimal_len, zero_padded, zeros};
use crate::order::{Order, int_order, is_digit, number_value};
use crate::paths::{code_point_order, lemma_code_point_order_total, raw_order};

verus! {

/// Whether every character of `s` is a digit.
pub open spec fn all_digits(s: Seq<char>) -> bool {
    forall|i: int| 0 <= i < s.len() ==> is_digit(#[trigger] s[i])
}

/// The decimal writing of a number is made of digits, and writes that
/// number.
pub proof fn lemma_decimal_writes_number(n: nat)
    ensures
        all_digits(decimal(n)),
        number_value(decimal(n)) == n,
    decreases n,
{
    if n < 10 {
        assert(decimal(n).drop_last() =~= Seq::<char>::empty());
        assert(decimal(n).last() == digit_char(n));
        assert(number_value(decimal(n).drop_last()) == 0);
    } else {
        lemma_decimal_writes_number(n / 10);
        let shorter = decimal(n / 10);
        assert(decimal(n).drop_last() =~= shorter);
        assert(decimal(n).last() == digit_char(n % 10));
        assert forall|i: int| 0 <= i < decimal(n).len() implies is_digit(
            #[trigger] decimal(n)[i],
        ) by {
            if i < shorter.len() {
                assert(decimal(n)[i] == shorter[i]);
            }
        }
    }
}

/// Zeros in front of a digit string do not change the number it writes.
pub proof fn lemma_leading_zeros(count: nat, digits: Seq<char>)
    ensures
        number_value(zeros(count) + digits) == number_value(digits),
    decreases digits.len(), count,
{
    let all = zeros(count) + digits;
    if digits.len() > 0 {
        assert(all.drop_last() =~= zeros(count) + digits.drop_last());
        assert(all.last() == digits.last());
        lemma_leading_zeros(count, digits.drop_last());
    } else if count > 0 {
        assert(all.drop_last() =~= zeros((count - 1) as nat) + digits);
        assert(all.last() == '0');
        lemma_leading_zeros((count - 1) as nat, digits);
    } else {
        assert(all =~= digits);
    }
}

/// A padded number is made of digits, writes its number, and is exactly as
/// wide as asked where the number fits.
pub proof fn lemma_padded_writes_number(n: nat, width: nat)
    ensures
        all_digits(zero_padded(n, width)),
        number_value(zero_padded(n, width)) == n,
        decimal_width(n) <= width ==> zero_padded(n, width).len() == width,
{
    lemma_decimal_writes_number(n);
    lemma_decimal_len(n);
    if decimal(n).len() < width {
        let count = (width - decimal(n).len()) as nat;
        lemma_leading_zeros(count, decimal(n));
        assert forall|i: int| 0 <= i < zero_padded(n, width).len() implies is_digit(
            #[trigger] zero_padded(n, width)[i],
        ) by {
            if i >= count {
                assert(zero_padded(n, width)[i] == decimal(n)[i - count]);
            }
        }
    }
}

/// Of two digit strings of one length that differ first at `at`, the one
/// with the smaller digit there writes the smaller number.
proof fn lemma_first_digit_decides(x: Seq<char>, y: Seq<char>, at: int)
    requires
        x.len() == y.len(),
        0 <= at < x.len(),
        all_digits(x),
        all_digits(y),
        forall|i: int| 0 <= i < at ==> x[i] == y[i],
        x[at] < y[at],
    ensures
        number_value(x) < number_value(y),
    decreases x.len(),
{
    let px = x.drop_last();
    let py = y.drop_last();
    assert(is_digit(x.last()) && is_digit(y.last()));
    if at == x.len() - 1 {
        assert(px =~= py);
    } else {
        assert forall|i: int| 0 <= i < px.len() implies is_digit(#[trigger] px[i]) by {
            assert(px[i] == x[i]);
        }
        assert forall|i: int| 0 <= i < py.len() implies is_digit(#[trigger] py[i]) by {
            assert(py[i] == y[i]);
        }
        assert forall|i: int| 0 <= i < at implies px[i] == py[i] by {
            assert(px[i] == x[i] && py[i] == y[i]);
        }
        assert(px[at] == x[at] && py[at] == y[at]);
        lemma_first_digit_decides(px, py, at);
    }
}

/// Two digit strings of one length are in the raw order of the numbers they
/// write.
pub proof fn lemma_digit_strings_sort_as_numbers(x: Seq<char>, y: Seq<char>)
    requires
        x.len() == y.len(),
        all_digits(x),
        all_digits(y),
    ensures
        raw_order(x, y) == int_order(number_value(x) as int, number_value(y) as int),
{
    lemma_code_point_order_total();
    lemma_digit_strings_from(x, y, 0);
    assert(x.take(0) + x.skip(0) =~= x && y.take(0) + y.skip(0) =~= y);
    assert(x.skip(0) =~= x && y.skip(0) =~= y);
}

/// As `lemma_digit_strings_sort_as_numbers`, for two strings that agree on
/// their first `from` characters.
proof fn lemma_digit_strings_from(x: Seq<char>, y: Seq<char>, from: int)
    requires
        x.len() == y.len(),
        0 <= from <= x.len(),
        all_digits(x),
        all_digits(y),
        forall|i: int| 0 <= i < from ==> x[i] == y[i],
    ensures
        raw_order(x.skip(from), y.skip(from)) == int_order(
            number_value(x) as int,
            number_value(y) as int,
        ),
    decreases x.len() - from,
{
    let xs = x.skip(from);
    let ys = y.skip(from);
    if from == x.len() {
        assert(x =~= y);
    } else {
        assert(xs[0] == x[from] && ys[0] == y[from]);
        if x[from] == y[from] {
            assert(xs.skip(1) =~= x.skip(from + 1) && ys.skip(1) =~= y.skip(from + 1));
            lemma_digit_strings_from(x, y, from + 1);
        } else if x[from] < y[from] {
            lemma_first_digit_decides(x, y, from);
        } else {
            assert forall|i: int| 0 <= i < from implies y[i] == x[i] by {}
            lemma_first_digit_decides(y, x, from);
        }
    }
}

/// Numbers padded to one width that they fit into sort, in raw order, as the
/// numbers do.
pub proof fn lemma_padded_numbers_sort_as_numbers(i: nat, j: nat, width: nat)
    requires
        decimal_width(i) <= width,
        decimal_width(j) <= width,
    ensures
        raw_order(zero_padded(i, width), zero_padded(j, width)) == int_order(i as int, j as int),
{
    lemma_padded_writes_number(i, width);
    lemma_padded_writes_number(j, width);
    lemma_digit_strings_sort_as_numbers(zero_padded(i, width), zero_padded(j, width));
}

/// Two strings that start with strings of one length that differ compare as
/// those do, whatever follows them.
pub proof fn lemma_first_part_decides(x: Seq<char>, y: Seq<char>, after_x: Seq<char>, after_y: Seq<char>)
    requires
        x.len() == y.len(),
        raw_order(x, y) != Order::Equal,
    ensures
        raw_order(x + after_x, y + after_y) == raw_order(x, y),
    decreases x.len(),
{
    if x.len() > 0 {
        assert((x + after_x)[0] == x[0] && (y + after_y)[0] == y[0]);
        if x[0] == y[0] {
            assert((x + after_x).skip(1) =~= x.skip(1) + after_x);
            assert((y + after_y).skip(1) =~= y.skip(1) + after_y);
            lemma_first_part_decides(x.skip(1), y.skip(1), after_x, after_y);
        }
    }
}

/// A decimal width never shrinks as the number grows.
pub proof fn lemma_decimal_width_grows(i: nat, j: nat)
    requires
        i <= j,
    ensures
        decimal_width(i) <= decimal_width(j),
    decreases j,
{
    if i >= 10 {
        lemma_decimal_width_grows(i / 10, j / 10);
    }
}

/// The pages of a chapter sort by rank: of two pages of one chapter, the one
/// with the lower rank has the lesser path in raw order, whatever the
/// extensions. So no two pages of a chapter share a path.
pub proof fn lemma_page_paths_sort_by_rank(
    dir_name: Seq<char>,
    i: nat,
    j: nat,
    page_count: nat,
    ext_i: Seq<char>,
    ext_j: Seq<char>,
)
    requires
        i < j < page_count,
    ensures
        raw_order(
            page_path(dir_name, i, page_count, ext_i),
            page_path(dir_name, j, page_count, ext_j),
        ) == Order::Less,
        page_path(dir_name, i, page_count, ext_i) != page_path(dir_name, j, page_count, ext_j),
{
    let width = decimal_width(page_count);
    lemma_decimal_width_grows(i, page_count);
    lemma_decimal_width_grows(j, page_count);
    let prefix = dir_name + "/"@ + dir_name + "_Pic_"@;
    let x = zero_padded(i, width);
    let y = zero_padded(j, width);
    let after_x = "."@ + ext_i;
    let after_y = "."@ + ext_j;
    lemma_padded_writes_number(i, width);
    lemma_padded_writes_number(j, width);
    lemma_padded_numbers_sort_as_numbers(i, j, width);
    lemma_first_part_decides(x, y, after_x, after_y);
    lemma_code_point_order_total();
    lemma_common_prefix(prefix, x + after_x, y + after_y, code_point_order());
    assert(page_path(dir_name, i, page_count, ext_i) =~= prefix + (x + after_x));
    assert(page_path(dir_name, j, page_count, ext_j) =~= prefix + (y + after_y));
    lemma_lexical_reflexive(
        page_path(dir_name, i, page_count, ext_i),
        code_point_order(),
    );
}

} // verus!
