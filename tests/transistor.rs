use logic_sim::{NMOSTransistor, PMOSTransistor, Transistor};

#[test]
fn nmos_conducting_with_no_source() {
    let nmos = NMOSTransistor::new();
    assert!(!nmos.is_conducting());
    assert!(nmos.is_conducting() == nmos.drain());
}

#[test]
fn pmos_conducting_with_no_source() {
    let pmos = PMOSTransistor::new();
    assert!(!pmos.is_conducting());
    assert!(pmos.is_conducting() == pmos.drain());
}

#[test]
fn nmos_conducting_with_source_false() {
    let mut nmos = NMOSTransistor::new();
    nmos.connect_source(false);
    assert!(!nmos.is_conducting());
    assert!(nmos.is_conducting() == nmos.drain());
}

#[test]
fn pmos_conducting_with_source_false() {
    let mut pmos = PMOSTransistor::new();
    pmos.connect_source(false);
    assert!(!pmos.is_conducting());
    assert!(pmos.is_conducting() == pmos.drain());
}

#[test]
fn nmos_conducting_with_source_true() {
    let mut nmos = NMOSTransistor::new();
    nmos.connect_source(true);
    assert!(!nmos.is_conducting());
    assert!(nmos.is_conducting() == nmos.drain());
}

#[test]
fn pmos_conducting_with_source_true() {
    let mut pmos = PMOSTransistor::new();
    pmos.connect_source(true);
    assert!(pmos.is_conducting());
    assert!(pmos.is_conducting() == pmos.drain());
}

#[test]
fn nmos_conducting_with_signal_false() {
    let mut nmos = NMOSTransistor::new();
    nmos.apply_control_signal(false);
    assert!(!nmos.is_conducting());
    assert!(nmos.is_conducting() == nmos.drain());
}

#[test]
fn pmos_conducting_with_signal_false() {
    let mut pmos = PMOSTransistor::new();
    pmos.apply_control_signal(false);
    assert!(!pmos.is_conducting());
    assert!(pmos.is_conducting() == pmos.drain());
}

#[test]
fn nmos_conducting_with_source_false_signal_false() {
    let mut nmos = NMOSTransistor::new();
    nmos.connect_source(false);
    nmos.apply_control_signal(false);
    assert!(!nmos.is_conducting());
    assert!(nmos.is_conducting() == nmos.drain());
}

#[test]
fn pmos_conducting_with_source_false_signal_false() {
    let mut pmos = PMOSTransistor::new();
    pmos.connect_source(false);
    pmos.apply_control_signal(false);
    assert!(!pmos.is_conducting());
    assert!(pmos.is_conducting() == pmos.drain());
}

#[test]
fn nmos_conducting_with_source_false_signal_true() {
    let mut nmos = NMOSTransistor::new();
    nmos.connect_source(false);
    nmos.apply_control_signal(true);
    assert!(!nmos.is_conducting());
    assert!(nmos.is_conducting() == nmos.drain());
}

#[test]
fn pmos_conducting_with_source_false_signal_true() {
    let mut pmos = PMOSTransistor::new();
    pmos.connect_source(false);
    pmos.apply_control_signal(true);
    assert!(!pmos.is_conducting());
}

#[test]
fn nmos_conducting_with_source_true_signal_false() {
    let mut nmos = NMOSTransistor::new();
    nmos.connect_source(true);
    nmos.apply_control_signal(false);
    assert!(!nmos.is_conducting());
    assert!(nmos.is_conducting() == nmos.drain());
}

#[test]
fn pmos_conducting_with_source_true_signal_false() {
    let mut pmos = PMOSTransistor::new();
    pmos.connect_source(true);
    pmos.apply_control_signal(false);
    assert!(pmos.is_conducting());
}

#[test]
fn nmos_conducting_with_source_true_signal_true() {
    let mut nmos = NMOSTransistor::new();
    nmos.connect_source(true);
    nmos.apply_control_signal(true);
    assert!(nmos.is_conducting());
}

#[test]
fn pmos_conducting_with_source_true_signal_true() {
    let mut pmos = PMOSTransistor::new();
    pmos.connect_source(true);
    pmos.apply_control_signal(true);
    assert!(!pmos.is_conducting());
}
