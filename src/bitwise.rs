use vstd::prelude::*;
use crate::bits::Bits;

verus! {

/// The width a multi-digit circuit was built for.
pub struct Bitwise {
    pub size: u8,
}

impl Bitwise {
    pub fn new(size: u8) -> (r: Bitwise)
        ensures
            r.size == size,
    {
        Bitwise { size }
    }
}

/// Width checking shared by the multi-digit circuits.
pub trait BitwiseCheck {
    /// The width of the operands the circuit takes.
    spec fn width(&self) -> nat;

    fn size(&self) -> (r: u8)
        ensures
            r as nat == self.width(),
    ;

    /// Whether `i` has the width the circuit takes.
    fn check_input(&self, i: &Bits) -> (r: bool)
        ensures
            r == (i@.len() == self.width()),
    {
        i.len() == self.size() as usize
    }
}

} // verus!
