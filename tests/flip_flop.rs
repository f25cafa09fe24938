use logic_sim::DFlipFlop;

#[test]
fn d_flip_flop_evaluate_set_false_clock_false() {
    let mut dflipflop = DFlipFlop::new();
    dflipflop.reset_states();
    dflipflop.set_d(false);
    assert!(dflipflop.output() == (false, true));
    assert!(dflipflop.clock_tick(false) == (false, true));
}

#[test]
fn d_flip_flop_evaluate_set_false_clock_true() {
    let mut dflipflop = DFlipFlop::new();
    dflipflop.reset_states();
    dflipflop.set_d(false);
    assert!(dflipflop.output() == (false, true));
    assert!(dflipflop.clock_tick(true) == (false, true));
}

#[test]
fn d_flip_flop_evaluate_set_true_clock_false() {
    let mut dflipflop = DFlipFlop::new();
    dflipflop.reset_states();
    dflipflop.set_d(true);
    assert!(dflipflop.output() == (false, true));
    assert!(dflipflop.clock_tick(false) == (false, true));
}

#[test]
fn d_flip_flop_evaluate_set_true_clock_true() {
    let mut dflipflop = DFlipFlop::new();
    dflipflop.reset_states();
    dflipflop.set_d(true);
    assert!(dflipflop.output() == (false, true));
    assert!(dflipflop.clock_tick(true) == (true, false));
}

#[test]
fn d_flip_flop_evaluate_set_false_clock_false_initial_q_true_qbar_false() {
    let mut dflipflop = DFlipFlop::new();

    dflipflop.q = true;
    dflipflop.q_bar = false;

    dflipflop.set_d(false);
    assert!(dflipflop.output() == (true, false));
    assert!(dflipflop.clock_tick(false) == (true, false));
}

#[test]
fn d_flip_flop_evaluate_set_false_clock_true_initial_q_true_qbar_false() {
    let mut dflipflop = DFlipFlop::new();

    dflipflop.q = true;
    dflipflop.q_bar = false;

    dflipflop.set_d(false);
    assert!(dflipflop.output() == (true, false));
    assert!(dflipflop.clock_tick(true) == (false, true));
}

#[test]
fn d_flip_flop_evaluate_set_true_clock_false_initial_q_true_qbar_false() {
    let mut dflipflop = DFlipFlop::new();

    dflipflop.q = true;
    dflipflop.q_bar = false;

    dflipflop.set_d(true);
    assert!(dflipflop.output() == (true, false));
    assert!(dflipflop.clock_tick(false) == (true, false));
}

#[test]
fn d_flip_flop_evaluate_set_true_clock_true_initial_q_true_qbar_false() {
    let mut dflipflop = DFlipFlop::new();

    dflipflop.q = true;
    dflipflop.q_bar = false;

    dflipflop.set_d(true);
    assert!(dflipflop.output() == (true, false));
    assert!(dflipflop.clock_tick(true) == (true, false));
}

#[test]
fn d_flip_flop_memory_sequence() {
    let mut dflipflop = DFlipFlop::new();

    dflipflop.reset_states();

    // Initial state
    dflipflop.set_d(false);
    assert!(dflipflop.clock_tick(false) == (false, true));

    // Set new state: 1
    dflipflop.set_d(true);
    assert!(dflipflop.clock_tick(true) == (true, false));

    // Memorized previous state: 1
    assert!(dflipflop.clock_tick(false) == (true, false));

    // Set new state: 0
    dflipflop.set_d(false);
    assert!(dflipflop.clock_tick(true) == (false, true));
}

#[test]
fn d_flip_flop_unstable_initial_state_true() {
    let mut dflipflop = DFlipFlop::new();

    // This state should be avoided, we need to reset state before using dflipflop
    dflipflop.q = true;
    dflipflop.q_bar = true;

    dflipflop.set_d(false);
    assert!(dflipflop.clock_tick(false) == (true, false));
    assert!(dflipflop.clock_tick(false) == (true, false));
}

#[test]
fn d_flip_flop_unstable_initial_state_false() {
    let mut dflipflop = DFlipFlop::new();

    // This state should be avoided, we need to reset state before using dflipflop
    dflipflop.q = false;
    dflipflop.q_bar = false;

    dflipflop.set_d(false);
    assert!(dflipflop.clock_tick(false) == (false, true));
    assert!(dflipflop.clock_tick(false) == (false, true));
}
