use logic_sim::Xnor;

#[test]
fn xnor_evaluate_with_signal_a_false_signal_b_false() {
    let mut xnor = Xnor::new();
    let result = xnor.evaluate(false, false);
    assert!(result);
}

#[test]
fn xnor_evaluate_with_signal_a_false_signal_b_true() {
    let mut xnor = Xnor::new();
    let result = xnor.evaluate(false, true);
    assert!(!result);
}

#[test]
fn xnor_evaluate_with_signal_a_true_signal_b_false() {
    let mut xnor = Xnor::new();
    let result = xnor.evaluate(true, false);
    assert!(!result);
}

#[test]
fn xnor_evaluate_with_signal_a_true_signal_b_true() {
    let mut xnor = Xnor::new();
    let result = xnor.evaluate(true, true);
    assert!(result);
}
