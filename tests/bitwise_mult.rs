use logic_sim::{BitwiseMult, Bits};

#[test]
fn bitwise_mult_evaluate() {
    for d1 in 0..4 {
        for d2 in 0..4 {
            let mut bitwise_mult = BitwiseMult::new(4);
            let data1 = Bits::from_int(d1, Some(4));
            let data2 = Bits::from_int(d2, Some(4));
            let result = bitwise_mult.evaluate(&data1, &data2);
            assert_eq!(result.to_int(), d1 * d2);
        }
    }
}
