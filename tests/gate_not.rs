use logic_sim::Not;

#[test]
fn not_evaluate_with_signal_true() {
    let mut not = Not::new();
    let result = not.evaluate(true);
    assert!(!result);
}

#[test]
fn not_evaluate_with_signal_false() {
    let mut not = Not::new();
    let result = not.evaluate(false);
    assert!(result);
}
