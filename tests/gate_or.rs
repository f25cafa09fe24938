use logic_sim::Or;

#[test]
fn or_evaluate_with_signal_a_false_signal_b_false() {
    let mut or = Or::new();
    let result = or.evaluate(false, false);
    assert!(!result);
}

#[test]
fn or_evaluate_with_signal_a_false_signal_b_true() {
    let mut or = Or::new();
    let result = or.evaluate(false, true);
    assert!(result);
}

#[test]
fn or_evaluate_with_signal_a_true_signal_b_false() {
    let mut or = Or::new();
    let result = or.evaluate(true, false);
    assert!(result);
}

#[test]
fn or_evaluate_with_signal_a_true_signal_b_true() {
    let mut or = Or::new();
    let result = or.evaluate(true, true);
    assert!(result);
}
