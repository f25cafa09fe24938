use logic_sim::{FullAdder, HalfAdder};

#[test]
fn half_adder_evaluate_with_signal_a_false_signal_b_false() {
    let mut half_adder = HalfAdder::new();
    let result = half_adder.evaluate(false, false);
    assert!(!result.sum);
    assert!(!result.carry_out);
}

#[test]
fn half_adder_evaluate_with_signal_a_false_signal_b_true() {
    let mut half_adder = HalfAdder::new();
    let result = half_adder.evaluate(false, true);
    assert!(result.sum);
    assert!(!result.carry_out);
}

#[test]
fn half_adder_evaluate_with_signal_a_true_signal_b_false() {
    let mut half_adder = HalfAdder::new();
    let result = half_adder.evaluate(true, false);
    assert!(result.sum);
    assert!(!result.carry_out);
}

#[test]
fn half_adder_evaluate_with_signal_a_true_signal_b_true() {
    let mut half_adder = HalfAdder::new();
    let result = half_adder.evaluate(true, true);
    assert!(!result.sum);
    assert!(result.carry_out);
}

#[test]
fn full_adder_evaluate_with_signal_a_false_signal_b_false_carry_in_false() {
    let mut full_adder = FullAdder::new();
    let result = full_adder.evaluate(false, false, false);
    assert!(!result.sum);
    assert!(!result.carry_out);
}

#[test]
fn full_adder_evaluate_with_signal_a_false_signal_b_false_carry_in_true() {
    let mut full_adder = FullAdder::new();
    let result = full_adder.evaluate(false, false, true);
    assert!(result.sum);
    assert!(!result.carry_out);
}

#[test]
fn full_adder_evaluate_with_signal_a_false_signal_b_true_carry_in_false() {
    let mut full_adder = FullAdder::new();
    let result = full_adder.evaluate(false, true, false);
    assert!(result.sum);
    assert!(!result.carry_out);
}

#[test]
fn full_adder_evaluate_with_signal_a_false_signal_b_true_carry_in_true() {
    let mut full_adder = FullAdder::new();
    let result = full_adder.evaluate(false, true, true);
    assert!(!result.sum);
    assert!(result.carry_out);
}

#[test]
fn full_adder_evaluate_with_signal_a_true_signal_b_false_carry_in_false() {
    let mut full_adder = FullAdder::new();
    let result = full_adder.evaluate(true, false, false);
    assert!(result.sum);
    assert!(!result.carry_out);
}

#[test]
fn full_adder_evaluate_with_signal_a_true_signal_b_false_carry_in_true() {
    let mut full_adder = FullAdder::new();
    let result = full_adder.evaluate(true, false, true);
    assert!(!result.sum);
    assert!(result.carry_out);
}

#[test]
fn full_adder_evaluate_with_signal_a_true_signal_b_true_carry_in_false() {
    let mut full_adder = FullAdder::new();
    let result = full_adder.evaluate(true, true, false);
    assert!(!result.sum);
    assert!(result.carry_out);
}

#[test]
fn full_adder_evaluate_with_signal_a_true_signal_b_true_carry_in_true() {
    let mut full_adder = FullAdder::new();
    let result = full_adder.evaluate(true, true, true);
    assert!(result.sum);
    assert!(result.carry_out);
}
