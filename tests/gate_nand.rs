use logic_sim::Nand;

#[test]
fn nand_evaluate_with_signal_a_false_signal_b_false() {
    let mut nand = Nand::new();
    let result = nand.evaluate(false, false);
    assert!(result);
}

#[test]
fn nand_evaluate_with_signal_a_false_signal_b_true() {
    let mut nand = Nand::new();
    let result = nand.evaluate(false, true);
    assert!(result);
}

#[test]
fn nand_evaluate_with_signal_a_true_signal_b_false() {
    let mut nand = Nand::new();
    let result = nand.evaluate(true, false);
    assert!(result);
}

#[test]
fn nand_evaluate_with_signal_a_true_signal_b_true() {
    let mut nand = Nand::new();
    let result = nand.evaluate(true, true);
    assert!(!result);
}
