//! Decimal and fixed-point text for unsigned integers.

use vstd::prelude::*;
use crate::text::{lemma_nul_free_concat, nul_free};

verus! {

/// The character that stands for the decimal digit `d`.
pub open spec fn digit(d: int) -> char {
    if d == 0 {
        '0'
    } else if d == 1 {
        '1'
    } else if d == 2 {
        '2'
    } else if d == 3 {
        '3'
    } else if d == 4 {
        '4'
    } else if d == 5 {
        '5'
    } else if d == 6 {
        '6'
    } else if d == 7 {
        '7'
    } else if d == 8 {
        '8'
    } else {
        '9'
    }
}

/// The decimal numeral of `n`: no sign, no leading zero, `"0"` for zero.
pub open spec fn decimal(n: nat) -> Seq<char>
    decreases n,
{
    if n < 10 {
        seq![digit(n as int)]
    } else {
        decimal(n / 10).push(digit((n % 10) as int))
    }
}

/// The last `width` decimal digits of `n`, with leading zeros kept.
pub open spec fn padded(n: nat, width: nat) -> Seq<char>
    decreases width,
{
    if width == 0 {
        Seq::empty()
    } else {
        padded(n / 10, (width - 1) as nat).push(digit((n % 10) as int))
    }
}

/// Ten to the power `k`.
pub open spec fn pow10(k: nat) -> nat
    decreases k,
{
    if k == 0 {
        1
    } else {
        10 * pow10((k - 1) as nat)
    }
}

/// `n` counted in units of `10^-places`, written with exactly `places`
/// digits after the point: `fixed_point(1234, 2)` is `"12.34"`.
pub open spec fn fixed_point(n: nat, places: nat) -> Seq<char> {
    decimal(n / pow10(places)) + seq!['.'] + padded(n % pow10(places), places)
}

/// One decimal digit as a string slice.
fn digit_str(d: u8) -> (s: &'static str)
    requires
        d < 10,
    ensures
        s@ == seq![digit(d as int)],
{
    proof {
        reveal_strlit("0");
        reveal_strlit("1");
        reveal_strlit("2");
        reveal_strlit("3");
        reveal_strlit("4");
        reveal_strlit("5");
        reveal_strlit("6");
        reveal_strlit("7");
        reveal_strlit("8");
        reveal_strlit("9");
    }
    let s = match d {
        0 => "0",
        1 => "1",
        2 => "2",
        3 => "3",
        4 => "4",
        5 => "5",
        6 => "6",
        7 => "7",
        8 => "8",
        _ => "9",
    };
    assert(s@ =~= seq![digit(d as int)]);
    s
}

/// Appends the decimal numeral of `n` to `out`.
pub fn push_decimal(out: &mut String, n: u128)
    ensures
        final(out)@ == old(out)@ + decimal(n as nat),
    decreases n,
{
    if n >= 10 {
        push_decimal(out, n / 10);
    }
    out.append(digit_str((n % 10) as u8));
}

/// Appends the last `width` decimal digits of `n`, for a width that no
/// numeral of a `u128` exceeds.
fn push_last_digits(out: &mut String, n: u128, width: u32)
    requires
        width <= 39,
    ensures
        final(out)@ == old(out)@ + padded(n as nat, width as nat),
    decreases width,
{
    if width > 0 {
        push_last_digits(out, n / 10, width - 1);
        out.append(digit_str((n % 10) as u8));
    }
}

/// A number below `10^width` gets a zero in front when it is written one
/// digit wider.
pub proof fn lemma_padded_leading_zero(n: nat, width: nat)
    requires
        n < pow10(width),
    ensures
        padded(n, width + 1) == seq!['0'] + padded(n, width),
    decreases width,
{
    if width == 0 {
        assert(padded(n, 1) =~= seq!['0'] + padded(n, 0)) by {
            reveal_with_fuel(padded, 2);
        }
    } else {
        lemma_padded_leading_zero(n / 10, (width - 1) as nat);
        assert(padded(n, width + 1) =~= seq!['0'] + padded(n, width));
    }
}

/// Appends the last `width` decimal digits of `n`, leading zeros included.
pub fn push_padded(out: &mut String, n: u128, width: u32)
    ensures
        final(out)@ == old(out)@ + padded(n as nat, width as nat),
{
    let mut left: u32 = width;
    while left > 39
        invariant
            left <= width,
            out@ + padded(n as nat, left as nat) == old(out)@ + padded(n as nat, width as nat),
        decreases left,
    {
        proof {
            lemma_pow10_fits();
            lemma_pow10_monotonic(39, (left - 1) as nat);
            assert(pow10(39) == 10 * pow10(38));
            lemma_padded_leading_zero(n as nat, (left - 1) as nat);
            reveal_strlit("0");
            assert("0"@ =~= seq!['0']);
        }
        let ghost before = out@;
        out.append("0");
        left = left - 1;
        assert(out@ + padded(n as nat, left as nat) =~= before + padded(n as nat, (left + 1) as nat));
    }
    push_last_digits(out, n, left);
}

/// Powers of ten grow with the exponent and never vanish.
pub proof fn lemma_pow10_monotonic(j: nat, k: nat)
    requires
        j <= k,
    ensures
        0 < pow10(j) <= pow10(k),
    decreases k,
{
    if k > 0 {
        if j < k {
            lemma_pow10_monotonic(j, (k - 1) as nat);
        } else {
            lemma_pow10_monotonic((j - 1) as nat, (k - 1) as nat);
        }
    }
}

/// `10^38` is the largest power of ten below `2^128`.
pub proof fn lemma_pow10_fits()
    ensures
        pow10(38) == 100_000_000_000_000_000_000_000_000_000_000_000_000nat,
        pow10(38) <= u128::MAX,
{
    assert(pow10(8) == 100_000_000nat) by {
        reveal_with_fuel(pow10, 9);
    }
    assert(pow10(16) == 10_000_000_000_000_000nat) by {
        lemma_pow10_sum(8, 8);
    }
    assert(pow10(32) == 100_000_000_000_000_000_000_000_000_000_000nat) by {
        lemma_pow10_sum(16, 16);
    }
    assert(pow10(6) == 1_000_000nat) by {
        reveal_with_fuel(pow10, 7);
    }
    lemma_pow10_sum(32, 6);
}

/// Exponents add where powers of ten multiply.
pub proof fn lemma_pow10_sum(j: nat, k: nat)
    ensures
        pow10(j + k) == pow10(j) * pow10(k),
    decreases k,
{
    if k > 0 {
        lemma_pow10_sum(j, (k - 1) as nat);
        assert(pow10(j + k) == 10 * pow10((j + k - 1) as nat));
        assert(10 * (pow10(j) * pow10((k - 1) as nat)) == pow10(j) * (10 * pow10((k - 1) as nat)))
            by (nonlinear_arith);
    } else {
        assert(pow10(j) * 1 == pow10(j));
    }
}

/// Ten to the power `places`, or `None` where that is more than a `u128`
/// holds: from the exponent 39 on.
pub fn power_of_ten(places: u32) -> (scale: Option<u128>)
    ensures
        match scale {
            Some(power) => places <= 38 && power == pow10(places as nat) && power > 0,
            None => places > 38 && pow10(places as nat) > u128::MAX,
        },
{
    if places > 38 {
        proof {
            lemma_pow10_fits();
            lemma_pow10_monotonic(39, places as nat);
            assert(pow10(39) == 10 * pow10(38));
        }
        return None;
    }
    let mut power: u128 = 1;
    let mut k: u32 = 0;
    while k < places
        invariant
            k <= places <= 38,
            power == pow10(k as nat),
        decreases places - k,
    {
        proof {
            lemma_pow10_monotonic((k + 1) as nat, 38);
            lemma_pow10_fits();
        }
        power = power * 10;
        k = k + 1;
    }
    proof {
        lemma_pow10_monotonic(0, places as nat);
    }
    Some(power)
}

/// Appends `n`, counted in units of `10^-places`, with `places` digits
/// after the point.
pub fn push_fixed_point(out: &mut String, n: u128, places: u32)
    ensures
        final(out)@ == old(out)@ + fixed_point(n as nat, places as nat),
{
    match power_of_ten(places) {
        Some(scale) => {
            push_decimal(out, n / scale);
            out.append(".");
            push_padded(out, n % scale, places);
        },
        None => {
            proof {
                let scale = pow10(places as nat);
                vstd::arithmetic::div_mod::lemma_basic_div(n as int, scale as int);
                vstd::arithmetic::div_mod::lemma_small_mod(n as nat, scale);
            }
            push_decimal(out, 0);
            out.append(".");
            push_padded(out, n, places);
        },
    }
    proof {
        reveal_strlit(".");
        assert("."@ =~= seq!['.']);
        assert(final(out)@ =~= old(out)@ + fixed_point(n as nat, places as nat));
    }
}

/// A decimal numeral holds digits only, so no NUL character.
pub proof fn lemma_decimal_nul_free(n: nat)
    ensures
        nul_free(decimal(n)),
    decreases n,
{
    if n >= 10 {
        lemma_decimal_nul_free(n / 10);
    }
}

/// Padded digits are digits only, so no NUL character.
pub proof fn lemma_padded_nul_free(n: nat, width: nat)
    ensures
        nul_free(padded(n, width)),
    decreases width,
{
    if width > 0 {
        lemma_padded_nul_free(n / 10, (width - 1) as nat);
    }
}

/// Fixed-point text is digits and a point, so it holds no NUL character.
pub proof fn lemma_fixed_point_nul_free(n: nat, places: nat)
    ensures
        nul_free(fixed_point(n, places)),
{
    lemma_decimal_nul_free(n / pow10(places));
    lemma_padded_nul_free(n % pow10(places), places);
    lemma_nul_free_concat(decimal(n / pow10(places)), seq!['.']);
    lemma_nul_free_concat(decimal(n / pow10(places)) + seq!['.'], padded(n % pow10(places), places));
}

} // verus!
