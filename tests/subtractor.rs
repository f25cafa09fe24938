use logic_sim::{FullSubtractor, FullSubtractorRestore, HalfSubtractor};

#[test]
fn half_subtractor_evaluate_with_signal_a_false_signal_b_false() {
    let mut half_subtractor = HalfSubtractor::new();
    let result = half_subtractor.evaluate(false, false);
    assert!(!result.difference);
    assert!(!result.borrow_out);
}

#[test]
fn half_subtractor_evaluate_with_signal_a_false_signal_b_true() {
    let mut half_subtractor = HalfSubtractor::new();
    let result = half_subtractor.evaluate(false, true);
    assert!(result.difference);
    assert!(result.borrow_out);
}

#[test]
fn half_subtractor_evaluate_with_signal_a_true_signal_b_false() {
    let mut half_subtractor = HalfSubtractor::new();
    let result = half_subtractor.evaluate(true, false);
    assert!(result.difference);
    assert!(!result.borrow_out);
}

#[test]
fn half_subtractor_evaluate_with_signal_a_true_signal_b_true() {
    let mut half_subtractor = HalfSubtractor::new();
    let result = half_subtractor.evaluate(true, true);
    assert!(!result.difference);
    assert!(!result.borrow_out);
}

#[test]
fn full_subtractor_evaluate_with_signal_a_false_signal_b_false_carry_in_false() {
    let mut full_subtractor = FullSubtractor::new();
    let result = full_subtractor.evaluate(false, false, false);
    assert!(!result.difference);
    assert!(!result.borrow_out);
}

#[test]
fn full_subtractor_evaluate_with_signal_a_false_signal_b_false_carry_in_true() {
    let mut full_subtractor = FullSubtractor::new();
    let result = full_subtractor.evaluate(false, false, true);
    assert!(result.difference);
    assert!(result.borrow_out);
}

#[test]
fn full_subtractor_evaluate_with_signal_a_false_signal_b_true_carry_in_false() {
    let mut full_subtractor = FullSubtractor::new();
    let result = full_subtractor.evaluate(false, true, false);
    assert!(result.difference);
    assert!(result.borrow_out);
}

#[test]
fn full_subtractor_evaluate_with_signal_a_false_signal_b_true_carry_in_true() {
    let mut full_subtractor = FullSubtractor::new();
    let result = full_subtractor.evaluate(false, true, true);
    assert!(!result.difference);
    assert!(result.borrow_out);
}

#[test]
fn full_subtractor_evaluate_with_signal_a_true_signal_b_false_carry_in_false() {
    let mut full_subtractor = FullSubtractor::new();
    let result = full_subtractor.evaluate(true, false, false);
    assert!(result.difference);
    assert!(!result.borrow_out);
}

#[test]
fn full_subtractor_evaluate_with_signal_a_true_signal_b_false_carry_in_true() {
    let mut full_subtractor = FullSubtractor::new();
    let result = full_subtractor.evaluate(true, false, true);
    assert!(!result.difference);
    assert!(!result.borrow_out);
}

#[test]
fn full_subtractor_evaluate_with_signal_a_true_signal_b_true_carry_in_false() {
    let mut full_subtractor = FullSubtractor::new();
    let result = full_subtractor.evaluate(true, true, false);
    assert!(!result.difference);
    assert!(!result.borrow_out);
}

#[test]
fn full_subtractor_evaluate_with_signal_a_true_signal_b_true_carry_in_true() {
    let mut full_subtractor = FullSubtractor::new();
    let result = full_subtractor.evaluate(true, true, true);
    assert!(result.difference);
    assert!(result.borrow_out);
}

#[test]
fn full_subtractor_restore() {
    for a in [false, true] {
        for b in [false, true] {
            for borrow_in in [false, true] {
                for carry in [false, true] {
                    let mut full_subtractor_restore = FullSubtractorRestore::new();
                    let (result, borrow_out) = full_subtractor_restore.evaluate(a, b, borrow_in, carry);
                    if carry {
                        if (a as u8) < (b as u8 + borrow_in as u8) {
                            assert!(borrow_out);
                            // assert borrow_out is True, f"Inputs: a={a}, b={b}, borrow_in={borrow_in}, carry={carry}"
                        }
                        let expected_result = (a as u8 + b as u8 + borrow_in as u8) % 2 != 0;
                        assert!(result == expected_result);
                    } else {
                        assert!(result == a);
                    }
                }
            }
        }
    }
}
