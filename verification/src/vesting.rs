//! The time-based vesting formula: how many tokens of an allocation are
//! vested once `passed` seconds of a `vesting`-second window have elapsed.

use vstd::prelude::*;

use vstd::arithmetic::div_mod::{lemma_div_is_ordered, lemma_div_by_multiple};
use vstd::arithmetic::mul::lemma_mul_inequality;

verus! {

/// Tokens vested `passed` seconds after the vesting window opened, for an
/// allocation of `alloc` tokens vesting linearly over `vesting` seconds:
/// the full allocation once the window has elapsed, otherwise the linear
/// share, rounded down.
pub open spec fn vested_amount(alloc: u128, passed: u64, vesting: u64) -> int {
    if passed >= vesting {
        alloc as int
    } else {
        (alloc as int * passed as int) / (vesting as int)
    }
}

/// In the linear phase the rounded-down share never exceeds the allocation.
pub proof fn lemma_vested_amount_bounded(alloc: u128, passed: u64, vesting: u64)
    ensures
        0 <= vested_amount(alloc, passed, vesting) <= alloc,
{
    if passed < vesting {
        lemma_mul_inequality(passed as int, vesting as int, alloc as int);
        lemma_div_is_ordered(
            alloc as int * passed as int,
            alloc as int * vesting as int,
            vesting as int,
        );
        lemma_div_by_multiple(alloc as int, vesting as int);
        vstd::arithmetic::mul::lemma_mul_is_commutative(alloc as int, passed as int);
        vstd::arithmetic::mul::lemma_mul_is_commutative(alloc as int, vesting as int);
        vstd::arithmetic::div_mod::lemma_div_pos_is_pos(alloc as int * passed as int, vesting as int);
        vstd::arithmetic::mul::lemma_mul_nonnegative(alloc as int, passed as int);
    }
}

/// The vested amount never decreases as time passes: for one allocation and
/// one vesting window, a later instant vests at least as much as an earlier
/// one.
pub proof fn lemma_vested_amount_monotonic(alloc: u128, p1: u64, p2: u64, vesting: u64)
    requires
        p1 <= p2,
    ensures
        vested_amount(alloc, p1, vesting) <= vested_amount(alloc, p2, vesting),
{
    if p1 >= vesting {
        // both fully vested
    } else if p2 >= vesting {
        lemma_vested_amount_bounded(alloc, p1, vesting);
    } else {
        lemma_mul_inequality(p1 as int, p2 as int, alloc as int);
        vstd::arithmetic::mul::lemma_mul_is_commutative(alloc as int, p1 as int);
        vstd::arithmetic::mul::lemma_mul_is_commutative(alloc as int, p2 as int);
        lemma_div_is_ordered(
            alloc as int * p1 as int,
            alloc as int * p2 as int,
            vesting as int,
        );
    }
}

/// Once the window has fully elapsed the vested amount is exactly the whole
/// allocation, with no residue from the rounded-down linear share.
pub proof fn lemma_vested_amount_converges(alloc: u128, passed: u64, vesting: u64)
    requires
        passed >= vesting,
    ensures
        vested_amount(alloc, passed, vesting) == alloc,
{
}

/// Relies on `cosmwasm_std::Uint128::multiply_ratio`: returns
/// floor(alloc * num / den); panics when `den` is zero or when the quotient
/// does not fit in 128 bits, both ruled out here.
#[verifier::external_body]
fn multiply_ratio_u128(alloc: u128, num: u64, den: u64) -> (r: u128)
    requires
        den > 0,
        alloc as int * num as int / (den as int) <= u128::MAX as int,
    ensures
        r as int == alloc as int * num as int / (den as int),
{
    cosmwasm_std::Uint128::new(alloc).multiply_ratio(num as u128, den as u128).u128()
}

/// Executable vesting computation, exact against `vested_amount`.
pub fn vested_tokens(alloc: u128, passed: u64, vesting: u64) -> (r: u128)
    ensures
        r as int == vested_amount(alloc, passed, vesting),
{
    if passed >= vesting {
        alloc
    } else {
        proof {
            lemma_vested_amount_bounded(alloc, passed, vesting);
        }
        multiply_ratio_u128(alloc, passed, vesting)
    }
}

} // verus!
