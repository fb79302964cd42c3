use poolwatch::fee::calculate_next_block_base_fee;

// Block exactly at target: the prediction is the base fee plus at most the
// jitter margin.
#[test]
fn at_target_prediction_stays_near_base_fee() {
    let r = calculate_next_block_base_fee(15_000_000, 30_000_000, 100);
    assert!(r >= 100);
    assert!(r <= 108);
}

// A zero gas limit clamps the target to one unit instead of dividing by
// zero; an empty block then steps the fee down by an eighth.
#[test]
fn zero_gas_limit_is_clamped() {
    let r = calculate_next_block_base_fee(0, 0, 80);
    assert!(r >= 70);
    assert!(r <= 78);
}

// Fuller blocks predict higher fees: with the windows more than the jitter
// apart, the order is visible through the jitter.
#[test]
fn fuller_block_predicts_higher_fee() {
    let low = calculate_next_block_base_fee(20_000_000, 30_000_000, 1000);
    let high = calculate_next_block_base_fee(30_000_000, 30_000_000, 1000);
    assert!(low >= 1041);
    assert!(low <= 1049);
    assert!(high >= 1125);
    assert!(high <= 1133);
    assert!(low < high);
}

// An emptier block steps the fee down: half the target usage takes away a
// sixteenth of the base fee.
#[test]
fn emptier_block_predicts_lower_fee() {
    // delta = 1600 * (15_000_000 - 7_500_000) / 15_000_000 / 8 = 100
    let r = calculate_next_block_base_fee(7_500_000, 30_000_000, 1600);
    assert!(r >= 1500);
    assert!(r <= 1508);
}

// Exact rounding of the upward step: the scaled increase rounds toward
// zero at each division.
#[test]
fn upward_step_rounds_toward_zero() {
    // 77 * 1_000_000 / 15_000_000 = 5, then 5 / 8 = 0: only jitter remains.
    let r = calculate_next_block_base_fee(16_000_000, 30_000_000, 77);
    assert!(r >= 77);
    assert!(r <= 85);
}
