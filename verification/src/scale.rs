//! Exact decimal arithmetic for the floating-form components. A component
//! such as `0.25` is kept as its integer digit string, and the mapping onto
//! the 8-bit channel space (0 maps to 0, 1 maps to 255, linear in between,
//! rounding half up) is computed exactly over the integers. Fraction digits
//! beyond the ninth cannot move the channel value and are ignored.

use vstd::prelude::*;

use crate::scan::{digit_val, is_digit};

verus! {

/// How many fraction digits take part in the scaling.
pub open spec fn frac_prec() -> int {
    9
}

/// The `k`-th power of ten.
pub open spec fn pow10(k: nat) -> int
    decreases k,
{
    if k == 0 {
        1
    } else {
        10 * pow10((k - 1) as nat)
    }
}

/// The integer whose decimal digits are `ds`, most significant first.
pub open spec fn digits_num(ds: Seq<char>) -> int
    decreases ds.len(),
{
    if ds.len() == 0 {
        0
    } else {
        digits_num(ds.drop_last()) * 10 + digit_val(ds.last())
    }
}

/// The fraction digits that take part in the scaling: the first nine, or all
/// of them when there are fewer.
pub open spec fn frac_digits(ds: Seq<char>) -> Seq<char> {
    if ds.len() <= frac_prec() {
        ds
    } else {
        ds.take(frac_prec())
    }
}

/// The channel value of the fraction `0.ds`: `255 * 0.ds` rounded half up,
/// computed over the digits that take part in the scaling.
pub open spec fn frac_scaled(ds: Seq<char>) -> int {
    let t = frac_digits(ds);
    (510 * digits_num(t) + pow10(t.len())) / (2 * pow10(t.len()))
}

/// The channel value of a component with integer part `one` (1 when true,
/// else 0) and fraction digits `ds`, for components within [0.0, 1.0]: a
/// component starting with 1 that is in range is exactly 1.0.
pub open spec fn comp_scaled(one: bool, ds: Seq<char>) -> int {
    if one {
        255
    } else {
        frac_scaled(ds)
    }
}

/// Whether every digit of `ds` is `'0'`.
pub open spec fn all_zero_digits(ds: Seq<char>) -> bool {
    forall|j: int| 0 <= j < ds.len() ==> #[trigger] ds[j] == '0'
}

/// Whether the component with integer part `one` and fraction digits `ds`
/// lies within [0.0, 1.0]: with integer part 0 it always does, with integer
/// part 1 only when every fraction digit is zero.
pub open spec fn comp_in_range(one: bool, ds: Seq<char>) -> bool {
    !one || all_zero_digits(ds)
}

pub proof fn lemma_pow10_pos(k: nat)
    ensures
        pow10(k) >= 1,
    decreases k,
{
    if k > 0 {
        lemma_pow10_pos((k - 1) as nat);
    }
}

/// Spelled-out powers of ten up to the scaling precision.
pub proof fn lemma_pow10_values()
    ensures
        pow10(0) == 1,
        pow10(1) == 10,
        pow10(2) == 100,
        pow10(3) == 1000,
        pow10(4) == 10000,
        pow10(5) == 100000,
        pow10(6) == 1000000,
        pow10(7) == 10000000,
        pow10(8) == 100000000,
        pow10(9) == 1000000000,
{
    assert(pow10(0) == 1);
    assert(pow10(1) == 10);
    assert(pow10(2) == 100);
    assert(pow10(3) == 1000);
    assert(pow10(4) == 10000);
    assert(pow10(5) == 100000);
    assert(pow10(6) == 1000000);
    assert(pow10(7) == 10000000);
    assert(pow10(8) == 100000000);
    assert(pow10(9) == 1000000000);
}

/// A string of `k` decimal digits denotes a value below `10^k` (and none is
/// negative).
pub proof fn lemma_digits_num_bound(ds: Seq<char>)
    requires
        forall|j: int| 0 <= j < ds.len() ==> is_digit(#[trigger] ds[j]),
    ensures
        0 <= digits_num(ds) < pow10(ds.len()),
    decreases ds.len(),
{
    if ds.len() > 0 {
        lemma_digits_num_bound(ds.drop_last());
        assert(is_digit(ds.last()));
        assert(0 <= digit_val(ds.last()) <= 9);
        let p = pow10((ds.len() - 1) as nat);
        assert(pow10(ds.len()) == 10 * p);
        assert(digits_num(ds.drop_last()) <= p - 1);
        assert(digits_num(ds.drop_last()) * 10 <= (p - 1) * 10) by (nonlinear_arith)
            requires
                digits_num(ds.drop_last()) <= p - 1,
        ;
    }
}

/// The scaled value of a fraction is a channel value: it lies in 0..=255.
pub proof fn lemma_frac_scaled_bounds(ds: Seq<char>)
    requires
        forall|j: int| 0 <= j < ds.len() ==> is_digit(#[trigger] ds[j]),
    ensures
        0 <= frac_scaled(ds) <= 255,
{
    let t = frac_digits(ds);
    assert(forall|j: int| 0 <= j < t.len() ==> is_digit(#[trigger] t[j]));
    lemma_digits_num_bound(t);
    let n = digits_num(t);
    let p = pow10(t.len());
    lemma_pow10_pos(t.len());
    assert(510 * n + p < 512 * p) by (nonlinear_arith)
        requires
            0 <= n <= p - 1,
            p >= 1,
    ;
    vstd::arithmetic::div_mod::lemma_multiply_divide_lt(510 * n + p, 2 * p, 256);
    vstd::arithmetic::div_mod::lemma_div_pos_is_pos(510 * n + p, 2 * p);
}

/// Computes `frac_scaled` for a fraction given as its leading digits: `n` is
/// the number the digits spell and `k` how many there are.
pub fn scaled_value(n: u32, k: usize) -> (v: u8)
    requires
        k <= 9,
        n < pow10(k as nat),
    ensures
        v == (510 * n + pow10(k as nat)) / (2 * pow10(k as nat)),
{
    proof {
        lemma_pow10_values();
    }
    let p: u64 = if k == 0 {
        1
    } else if k == 1 {
        10
    } else if k == 2 {
        100
    } else if k == 3 {
        1000
    } else if k == 4 {
        10000
    } else if k == 5 {
        100000
    } else if k == 6 {
        1000000
    } else if k == 7 {
        10000000
    } else if k == 8 {
        100000000
    } else {
        1000000000
    };
    let x: u64 = 510 * (n as u64) + p;
    proof {
        assert(510 * n + p < 512 * p) by (nonlinear_arith)
            requires
                0 <= n <= p - 1,
                p >= 1,
        ;
        vstd::arithmetic::div_mod::lemma_multiply_divide_lt(510 * (n as int) + p, 2 * (p as int), 256);
        vstd::arithmetic::div_mod::lemma_div_pos_is_pos(510 * (n as int) + p, 2 * (p as int));
    }
    (x / (2 * p)) as u8
}

} // verus!
