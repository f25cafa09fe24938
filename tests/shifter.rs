use logic_sim::{BarrelShifter, Bits};

#[test]
fn barrel_shifter_evaluate() {
    let mut barrel_shiter_right = BarrelShifter::new(3, true);
    let mut barrel_shiter_left = BarrelShifter::new(3, false);

    for index_i in 0..256 {
        let i = Bits::from_int(index_i, Some(8));

        for index_s in 0..8 {
            let s = Bits::from_int(index_s, Some(3));

            let (result_right, _) = barrel_shiter_right.evaluate(&i, &s);
            assert!(((i.to_int() >> s.to_int()) | (i.to_int() << (8 - s.to_int())) & 0xFF) % (2u32.pow(8)) == result_right.to_int());

            let (result_left, _) = barrel_shiter_left.evaluate(&i, &s);
            assert!(((i.to_int() << s.to_int()) | (i.to_int() >> (8 - s.to_int())) & 0xFF) % (2u32.pow(8)) == result_left.to_int());
        }

    }
}

