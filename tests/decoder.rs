use logic_sim::{Bits, Decoder};

#[test]
fn decoder_2to4_evaluate_disabled() {
    let mut decoder = Decoder::new(2);

    for a1 in [false, true] {
        for a0 in [false, true] {
            let result = decoder.evaluate(Bits::from_slice_b(&[a1, a0], Some(2)), false);

            for bit in result {
                assert!(!bit)
            }
        }
    }
}

#[test]
fn decoder_2to4_evaluate_enabled() {
    let mut decoder = Decoder::new(2);

    let mut bit_true_index = 0;
    for a1 in [false, true] {
        for a0 in [false, true] {
            let result = decoder.evaluate(Bits::from_slice_b(&[a1, a0], Some(2)), true);

            for (bit_index, bit) in result.iter().rev().enumerate() {
                if bit_index == bit_true_index {
                    assert!(bit)
                } else {
                    assert!(!bit)
                }
            }
            bit_true_index += 1;
        }
    }
}

#[test]
fn decoder_4to16_evaluate_disabled() {
    let mut decoder = Decoder::new(4);

    for a3 in [false, true] {
        for a2 in [false, true] {
            for a1 in [false, true] {
                for a0 in [false, true] {
                    let result =
                        decoder.evaluate(Bits::from_slice_b(&[a3, a2, a1, a0], Some(4)), false);

                    for bit in result {
                        assert!(!bit)
                    }
                }
            }
        }
    }
}

#[test]
fn decoder_4to16_evaluate_enabled() {
    let mut decoder = Decoder::new(4);

    let mut bit_true_index = 0;
    for a3 in [false, true] {
        for a2 in [false, true] {
            for a1 in [false, true] {
                for a0 in [false, true] {
                    let result =
                        decoder.evaluate(Bits::from_slice_b(&[a3, a2, a1, a0], Some(4)), true);

                    for (bit_index, bit) in result.iter().rev().enumerate() {
                        if bit_index == bit_true_index {
                            assert!(bit)
                        } else {
                            assert!(!bit)
                        }
                    }
                    bit_true_index += 1;
                }
            }
        }
    }
}
