use logic_sim::{BitwiseAdd, Bits};

#[test]
fn bitwise_add_evaluate() {
    for d1 in 0..4 {
        for d2 in 0..4 {
            for carry in [false, true] {
                let mut bitwise_add = BitwiseAdd::new(4);
                let data1 = Bits::from_int(d1, Some(4));
                let data2 = Bits::from_int(d2, Some(4));

                let (result, carry_out) = bitwise_add.evaluate(&data1, &data2, carry);

                assert_eq!(result.to_int(), d1 + d2 + (carry as u32));
                assert!(!carry_out)
            }
        }
    }
}

