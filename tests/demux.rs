use logic_sim::Demux1To2;

#[test]
fn demux2to1_evaluate() {
    let mut demux1to2 = Demux1To2::new();

    for a in [false, true] {
        let result = demux1to2.evaluate(a, false);
        assert!(result == (false, a));

        let result = demux1to2.evaluate(a, true);
        assert!(result == (a, false));
    }
}
