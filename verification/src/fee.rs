//! Base-fee prediction: estimates the next block's base fee from the
//! current block's gas usage, gas limit and base fee, following the
//! fee-market adjustment rule (the fee moves an eighth of the way toward
//! equilibrium per block), plus a small random estimation-slack jitter.

use vstd::prelude::*;
use rand::Rng;
use vstd::arithmetic::div_mod::{lemma_div_is_ordered, lemma_div_pos_is_pos, lemma_div_nonincreasing};
use vstd::arithmetic::mul::{lemma_mul_inequality, lemma_mul_upper_bound, lemma_mul_nonnegative};

verus! {

/// The gas target of a block: half its gas limit, clamped to at least one
/// unit so that the fee adjustment never divides by zero.
pub open spec fn target_gas(gas_limit: u64) -> int {
    if gas_limit / 2 == 0 {
        1
    } else {
        gas_limit as int / 2
    }
}

/// Magnitude of the fee adjustment: the base fee scaled by how far gas
/// usage strayed from the target, damped by a factor of eight.
pub open spec fn base_fee_delta(gas_used: u64, gas_limit: u64, base_fee_per_gas: u64) -> int {
    let t = target_gas(gas_limit);
    if gas_used > t {
        base_fee_per_gas * (gas_used - t) / t / 8
    } else {
        base_fee_per_gas * (t - gas_used) / t / 8
    }
}

/// The predicted next-block base fee before jitter: the fee rises when the
/// block was fuller than the target and falls when it was emptier, never
/// below zero.
pub open spec fn predicted_base_fee(gas_used: u64, gas_limit: u64, base_fee_per_gas: u64) -> int {
    let t = target_gas(gas_limit);
    let d = base_fee_delta(gas_used, gas_limit, base_fee_per_gas);
    if gas_used > t {
        base_fee_per_gas + d
    } else if base_fee_per_gas >= d {
        base_fee_per_gas - d
    } else {
        0
    }
}

/// Relies on rand's `Rng::gen_range`: the sample lies within the given
/// half-open range, here `0..9`.
#[verifier::external_body]
fn sample_jitter() -> (r: u64)
    ensures
        r <= 8,
{
    rand::thread_rng().gen_range(0..9)
}

/// The fee adjustment never exceeds the base fee itself when the block was
/// at or under target, so the downward branch cannot go negative.
proof fn lemma_delta_bounds(gas_used: u64, gas_limit: u64, base_fee_per_gas: u64)
    ensures
        0 <= base_fee_delta(gas_used, gas_limit, base_fee_per_gas),
        gas_used <= target_gas(gas_limit) ==> base_fee_delta(gas_used, gas_limit, base_fee_per_gas)
            <= base_fee_per_gas,
{
    let t = target_gas(gas_limit);
    let b = base_fee_per_gas as int;
    if gas_used > t {
        lemma_mul_nonnegative(b, gas_used - t);
        lemma_div_pos_is_pos(b * (gas_used - t), t);
        lemma_div_pos_is_pos(b * (gas_used - t) / t, 8);
    } else {
        lemma_mul_nonnegative(b, t - gas_used);
        lemma_div_pos_is_pos(b * (t - gas_used), t);
        lemma_div_pos_is_pos(b * (t - gas_used) / t, 8);
        // b * (t - g) <= b * t, so dividing by t leaves at most b, and the
        // damping division only shrinks it further.
        lemma_mul_inequality(t - gas_used, t, b);
        lemma_div_is_ordered(b * (t - gas_used), b * t, t);
        vstd::arithmetic::div_mod::lemma_div_multiples_vanish(b, t);
        lemma_div_nonincreasing(b * (t - gas_used) / t, 8);
    }
}

/// Estimate the next block's base fee from the current block's gas usage,
/// gas limit and base fee. The result is the deterministic fee-market
/// prediction plus a random jitter of at most eight fee units.
pub fn calculate_next_block_base_fee(gas_used: u64, gas_limit: u64, base_fee_per_gas: u64) -> (r:
    u128)
    ensures
        predicted_base_fee(gas_used, gas_limit, base_fee_per_gas) <= r <= predicted_base_fee(
            gas_used,
            gas_limit,
            base_fee_per_gas,
        ) + 8,
{
    let half: u64 = gas_limit / 2;
    let t: u64 = if half == 0 {
        1
    } else {
        half
    };
    let base: u128 = base_fee_per_gas as u128;
    proof {
        lemma_delta_bounds(gas_used, gas_limit, base_fee_per_gas);
    }
    let new_fee: u128 = if gas_used > t {
        let diff: u128 = (gas_used - t) as u128;
        proof {
            lemma_mul_upper_bound(base as int, u64::MAX as int, diff as int, u64::MAX as int);
        }
        let scaled: u128 = base * diff;
        proof {
            lemma_div_pos_is_pos(scaled as int, t as int);
            lemma_div_nonincreasing(scaled as int, t as int);
            lemma_div_pos_is_pos(scaled as int / t as int, 8);
            lemma_div_nonincreasing(scaled as int / t as int, 8);
        }
        let delta: u128 = scaled / (t as u128) / 8;
        base + delta
    } else {
        let diff: u128 = (t - gas_used) as u128;
        proof {
            lemma_mul_upper_bound(base as int, u64::MAX as int, diff as int, u64::MAX as int);
        }
        let scaled: u128 = base * diff;
        let delta: u128 = scaled / (t as u128) / 8;
        if base >= delta {
            base - delta
        } else {
            0
        }
    };
    let jitter: u64 = sample_jitter();
    new_fee + (jitter as u128)
}

/// The gas target is always positive — the fee adjustment never divides by
/// zero — and a zero gas limit is clamped to a target of one unit.
pub proof fn lemma_target_gas_never_zero(gas_limit: u64)
    ensures
        target_gas(gas_limit) >= 1,
        gas_limit == 0 ==> target_gas(gas_limit) == 1,
{
}

/// Monotonicity of the prediction before jitter: raising the gas usage of
/// the observed block, with the gas limit and base fee held fixed, never
/// lowers the predicted fee.
pub proof fn lemma_predicted_fee_monotonic(g1: u64, g2: u64, gas_limit: u64, base_fee_per_gas: u64)
    requires
        g1 <= g2,
    ensures
        predicted_base_fee(g1, gas_limit, base_fee_per_gas) <= predicted_base_fee(
            g2,
            gas_limit,
            base_fee_per_gas,
        ),
{
    let t = target_gas(gas_limit);
    let b = base_fee_per_gas as int;
    lemma_delta_bounds(g1, gas_limit, base_fee_per_gas);
    lemma_delta_bounds(g2, gas_limit, base_fee_per_gas);
    assert(t >= 1);
    if t < g1 {
        // Both above target: a larger excess gives a larger upward step.
        lemma_mul_inequality(g1 - t, g2 - t, b);
        assert(b * (g1 - t) <= b * (g2 - t)) by (nonlinear_arith)
            requires
                b >= 0,
                g1 - t <= g2 - t,
        ;
        lemma_div_is_ordered(b * (g1 - t), b * (g2 - t), t);
        lemma_div_is_ordered(b * (g1 - t) / t, b * (g2 - t) / t, 8);
    } else if g2 <= t {
        // Both at or below target: a larger usage gives a smaller downward
        // step.
        lemma_mul_inequality(t - g2, t - g1, b);
        assert(b * (t - g2) <= b * (t - g1)) by (nonlinear_arith)
            requires
                b >= 0,
                t - g2 <= t - g1,
        ;
        lemma_div_is_ordered(b * (t - g2), b * (t - g1), t);
        lemma_div_is_ordered(b * (t - g2) / t, b * (t - g1) / t, 8);
    } else {
        // g1 at or below target, g2 above: the first prediction is at most
        // the base fee, the second at least it.
    }
}

} // verus!
