use logic_sim::{Bits, PIPORegister};

#[test]
fn pipo_set1011() {
    let mut pipo_register = PIPORegister::new(4);
    pipo_register.reset_states();
    pipo_register.set_d(&[true, false, true, true]);
    assert!(pipo_register.clock_tick(true) == [true, false, true, true]);
}

#[test]
fn pipo_set1111() {
    let mut pipo_register = PIPORegister::new(4);
    pipo_register.reset_states();
    pipo_register.set_d(&[true, true, true, true]);
    assert!(pipo_register.clock_tick(true) == &[true, true, true, true]);
}

#[test]
fn tpipo_set1110() {
    let mut pipo_register = PIPORegister::new(4);
    pipo_register.reset_states();
    pipo_register.set_d(&[true, true, true, false]);
    assert!(pipo_register.clock_tick(true) == &[true, true, true, false]);
}

#[test]
fn pipo_set1110_memorize() {
    let mut pipo_register = PIPORegister::new(4);
    pipo_register.reset_states();
    pipo_register.set_d(&[true, true, true, false]);
    assert!(pipo_register.clock_tick(true) == &[true, true, true, false]);

    for _ in 0..10 {
        assert!(
            Bits::from_slice_b(&[true, true, true, false], None) == &[true, true, true, false]
        );
    }
}

