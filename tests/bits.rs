use logic_sim::Bits;

#[test]
fn bits_from_slice_b() {
    let bits = Bits::from_slice_b(&[false, true, false, true], Some(8));
    assert!(bits.to_int() == 5);
    assert!(bits.len() == 8);
}

#[test]
fn bits_from_slice_b_no_size() {
    let bits = Bits::from_slice_b(&[false, true, false, true], None);
    assert!(bits.to_int() == 5);
    assert!(bits.len() == 4);
}

#[test]
fn bits_from_slice_i() {
    let bits = Bits::from_slice_i(&[1, 0, 0, 1], Some(8));
    assert!(bits.to_int() == 9);
    assert!(bits.len() == 8);
}

#[test]
fn bits_from_int() {
    let bits = Bits::from_int(125, Some(8));
    assert!(bits.to_int() == 125);
    assert!(bits.len() == 8);
}

#[test]
fn bits_from_int_no_size() {
    let bits = Bits::from_int(509, None);
    assert!(bits.to_int() == 509);
    assert!(bits.len() == 9);
}

#[test]
fn bits_equal() {
    let a = Bits::from_int(253, Some(8));
    let b = Bits::from_int(253, Some(8));
    assert!(a == b);

    let a = Bits::from_int(253, Some(8));
    let b = Bits::from_int(253, Some(16));
    assert!(a == b);
}

#[test]
fn bits_not_equal() {
    let a = Bits::from_int(253, Some(8));
    let b = Bits::from_int(125, Some(8));
    assert!(a != b);

    let a = Bits::from_int(253, Some(8));
    let b = Bits::from_int(125, Some(16));
    assert!(a != b);
}
