//! A share of a total, as a percentage with two decimals.

use vstd::prelude::*;
use crate::digits::{fixed_point, lemma_fixed_point_nul_free, push_fixed_point};
use crate::text::nul_free;

verus! {

/// `part` out of `whole` in hundredths of a percent, rounded to the nearest
/// hundredth; a share that lies exactly between two hundredths goes to the
/// even one.
pub open spec fn ratio_hundredths(part: nat, whole: nat) -> nat
    recommends
        whole > 0,
{
    let scaled = part * 10000;
    let quotient = scaled / whole;
    let rest = scaled % whole;
    if 2 * rest > whole || (2 * rest == whole && quotient % 2 == 1) {
        quotient + 1
    } else {
        quotient
    }
}

/// The percentage that `part` is of `whole`, with two decimals. A share of
/// nothing has no value: its text is empty.
pub open spec fn percent_text(part: nat, whole: nat) -> Seq<char> {
    if whole > 0 {
        fixed_point(ratio_hundredths(part, whole), 2)
    } else {
        Seq::empty()
    }
}

/// A percentage holds no NUL character.
pub proof fn lemma_percent_nul_free(part: nat, whole: nat)
    ensures
        nul_free(percent_text(part, whole)),
{
    if whole > 0 {
        lemma_fixed_point_nul_free(ratio_hundredths(part, whole), 2);
    }
}

/// The rounded share is off from the exact one by at most half a hundredth
/// of a percent.
pub proof fn lemma_ratio_nearest(part: nat, whole: nat)
    requires
        whole > 0,
    ensures
        2 * (ratio_hundredths(part, whole) * whole - part * 10000) <= whole,
        2 * (part * 10000 - ratio_hundredths(part, whole) * whole) <= whole,
{
    let scaled = part * 10000;
    let quotient = scaled / whole;
    let rest = scaled % whole;
    assert(scaled == whole * quotient + rest) by {
        vstd::arithmetic::div_mod::lemma_fundamental_div_mod(scaled as int, whole as int);
    }
    assert(0 <= rest < whole) by {
        vstd::arithmetic::div_mod::lemma_mod_bound(scaled as int, whole as int);
    }
    assert((quotient + 1) * whole == quotient * whole + whole) by (nonlinear_arith);
    assert(quotient * whole == whole * quotient) by (nonlinear_arith);
}

/// Hundredths of a percent that `part` is of `whole`; `None` for a share
/// of nothing.
pub fn hundredths_of(part: u64, whole: u64) -> (share: Option<u128>)
    ensures
        match share {
            Some(hundredths) => whole > 0 && hundredths == ratio_hundredths(part as nat, whole as nat),
            None => whole == 0,
        },
{
    if whole == 0 {
        return None;
    }
    let scaled: u128 = part as u128 * 10000;
    let divisor: u128 = whole as u128;
    let quotient: u128 = scaled / divisor;
    let rest: u128 = scaled % divisor;
    if 2 * rest > divisor || (2 * rest == divisor && quotient % 2 == 1) {
        Some(quotient + 1)
    } else {
        Some(quotient)
    }
}

/// Appends the percentage that `part` is of `whole`; nothing for a share
/// of nothing.
pub fn push_percent(out: &mut String, part: u64, whole: u64)
    ensures
        final(out)@ == old(out)@ + percent_text(part as nat, whole as nat),
{
    match hundredths_of(part, whole) {
        Some(hundredths) => {
            push_fixed_point(out, hundredths, 2);
        },
        None => {
            assert(out@ + Seq::<char>::empty() =~= out@);
        },
    }
}

} // verus!
