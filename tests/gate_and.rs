use logic_sim::And;

#[test]
fn and_evaluate_with_signal_a_false_signal_b_false() {
    let mut and = And::new();
    let result = and.evaluate(false, false);
    assert!(!result);
}

#[test]
fn and_evaluate_with_signal_a_false_signal_b_true() {
    let mut and = And::new();
    let result = and.evaluate(false, true);
    assert!(!result);
}

#[test]
fn and_evaluate_with_signal_a_true_signal_b_false() {
    let mut and = And::new();
    let result = and.evaluate(true, false);
    assert!(!result);
}

#[test]
fn and_evaluate_with_signal_a_true_signal_b_true() {
    let mut and = And::new();
    let result = and.evaluate(true, true);
    assert!(result);
}
