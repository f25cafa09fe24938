use logic_sim::{BitwiseSub, Bits};

#[test]
fn bitwise_sub_evaluate() {
    for d1 in 0..4 {
        for d2 in 0..4 {
            for borrow in [false, true] {
                let mut bitwise_sub = BitwiseSub::new(4);
                let data1 = Bits::from_int(d1, Some(4));
                let data2 = Bits::from_int(d2, Some(4));
                let (result, borrow_out) = bitwise_sub.evaluate(&data1, &data2, borrow);

                let borrow_i32 = borrow as i32;
                let d1_i32 = d1 as i32;
                let d2_i32 = d2 as i32;
                if d1_i32 < d2_i32 + borrow_i32 {
                    assert_eq!(result.to_int(), (16 + (d1_i32 - d2_i32 - borrow_i32)) as u32);
                    assert!(borrow_out)
                } else {
                    assert_eq!(result.to_int(), (d1_i32 - d2_i32 - borrow_i32) as u32);
                    assert!(!borrow_out)
                }
            }
        }
    }
}

