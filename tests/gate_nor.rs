use logic_sim::Nor;

#[test]
fn nor_evaluate_with_signal_a_false_signal_b_false() {
    let mut nor = Nor::new();
    let result = nor.evaluate(false, false);
    assert!(result);
}

#[test]
fn nor_evaluate_with_signal_a_false_signal_b_true() {
    let mut nor = Nor::new();
    let result = nor.evaluate(false, true);
    assert!(!result);
}

#[test]
fn nor_evaluate_with_signal_a_true_signal_b_false() {
    let mut nor = Nor::new();
    let result = nor.evaluate(true, false);
    assert!(!result);
}

#[test]
fn nor_evaluate_with_signal_a_true_signal_b_true() {
    let mut nor = Nor::new();
    let result = nor.evaluate(true, true);
    assert!(!result);
}
