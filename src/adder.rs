use vstd::prelude::*;
use crate::bits::digit;
use crate::gates::{And, Or, Xor};

verus! {

/// The two outputs of a one-digit adder.
pub struct AdderResult {
    pub sum: bool,
    pub carry_out: bool,
}

/// Adds two digits: XOR for the sum, AND for the carry.
pub struct HalfAdder {
    xor: Xor,
    and: And,
}

impl HalfAdder {
    /// Both gates take the two inputs.
    pub closed spec fn wired(&self, signal_a: bool, signal_b: bool) -> bool {
        &&& self.xor.wired(signal_a, signal_b)
        &&& self.and.wired(signal_a, signal_b)
    }

    pub fn new() -> Self {
        HalfAdder { xor: Xor::new(), and: And::new() }
    }

    pub fn evaluate(&mut self, signal_a: bool, signal_b: bool) -> (r: AdderResult)
        ensures
            r.sum == (signal_a != signal_b),
            r.carry_out == (signal_a && signal_b),
            digit(signal_a) + digit(signal_b) == digit(r.sum) + 2 * digit(r.carry_out),
            final(self).wired(signal_a, signal_b),
    {
        let sum = self.xor.evaluate(signal_a, signal_b);
        let carry_out = self.and.evaluate(signal_a, signal_b);
        AdderResult { sum, carry_out }
    }
}

/// Adds two digits and an incoming carry with two XOR stages.
pub struct FullAdder {
    xor0: Xor,
    xor1: Xor,
    and0: And,
    and1: And,
    or: Or,
}

impl FullAdder {
    /// The XOR chain forms the sum; the carry is the OR of the carry-in
    /// ANDed with the first XOR and of the two inputs ANDed.
    pub closed spec fn wired(&self, signal_a: bool, signal_b: bool, carry_in: bool) -> bool {
        let half = signal_a != signal_b;
        &&& self.xor0.wired(signal_a, signal_b)
        &&& self.xor1.wired(half, carry_in)
        &&& self.and0.wired(carry_in, half)
        &&& self.and1.wired(signal_a, signal_b)
        &&& self.or.wired(carry_in && half, signal_a && signal_b)
    }

    pub fn new() -> Self {
        FullAdder {
            xor0: Xor::new(),
            xor1: Xor::new(),
            and0: And::new(),
            and1: And::new(),
            or: Or::new(),
        }
    }

    pub fn evaluate(&mut self, signal_a: bool, signal_b: bool, carry_in: bool) -> (r:
        AdderResult)
        ensures
            r.sum == ((signal_a != signal_b) != carry_in),
            r.carry_out == ((carry_in && (signal_a != signal_b)) || (signal_a && signal_b)),
            digit(signal_a) + digit(signal_b) + digit(carry_in) == digit(r.sum) + 2 * digit(
                r.carry_out,
            ),
            final(self).wired(signal_a, signal_b, carry_in),
    {
        let xor0_result = self.xor0.evaluate(signal_a, signal_b);
        let sum = self.xor1.evaluate(xor0_result, carry_in);
        let and0_result = self.and0.evaluate(carry_in, xor0_result);
        let and1_result = self.and1.evaluate(signal_a, signal_b);
        let carry_out = self.or.evaluate(and0_result, and1_result);
        AdderResult { sum, carry_out }
    }
}

} // verus!
