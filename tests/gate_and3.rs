use logic_sim::And3;

#[test]
fn and3_evaluate_with_signal_a_false_signal_b_false_signal_c_false() {
    let mut and3 = And3::new();
    let result = and3.evaluate(false, false, false);
    assert!(!result);
}

#[test]
fn and3_evaluate_with_signal_a_false_signal_b_false_signal_c_true() {
    let mut and3 = And3::new();
    let result = and3.evaluate(false, false, true);
    assert!(!result);
}

#[test]
fn and3_evaluate_with_signal_a_false_signal_b_true_signal_c_false() {
    let mut and3 = And3::new();
    let result = and3.evaluate(false, true, false);
    assert!(!result);
}

#[test]
fn and3_evaluate_with_signal_a_false_signal_b_true_signal_c_true() {
    let mut and3 = And3::new();
    let result = and3.evaluate(false, true, true);
    assert!(!result);
}

#[test]
fn and3_evaluate_with_signal_a_true_signal_b_false_signal_c_false() {
    let mut and3 = And3::new();
    let result = and3.evaluate(true, false, false);
    assert!(!result);
}

#[test]
fn and3_evaluate_with_signal_a_true_signal_b_false_signal_c_true() {
    let mut and3 = And3::new();
    let result = and3.evaluate(true, false, true);
    assert!(!result);
}

#[test]
fn and3_evaluate_with_signal_a_true_signal_b_true_signal_c_false() {
    let mut and3 = And3::new();
    let result = and3.evaluate(true, true, false);
    assert!(!result);
}

#[test]
fn and3_evaluate_with_signal_a_true_signal_b_true_signal_c_true() {
    let mut and3 = And3::new();
    let result = and3.evaluate(true, true, true);
    assert!(result);
}
