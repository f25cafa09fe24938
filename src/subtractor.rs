use vstd::prelude::*;
use crate::bits::digit;
use crate::gates::{And, Not, Or, Xor};
use crate::mux::Mux2To1;

verus! {

/// The two outputs of a one-digit subtractor.
pub struct SubtractorResult {
    pub difference: bool,
    pub borrow_out: bool,
}

/// Subtracts one digit from another.
pub struct HalfSubtractor {
    xor: Xor,
    not: Not,
    and: And,
}

impl HalfSubtractor {
    /// The XOR takes the inputs; the borrow is `!signal_a` ANDed with
    /// `signal_b`.
    pub closed spec fn wired(&self, signal_a: bool, signal_b: bool) -> bool {
        &&& self.xor.wired(signal_a, signal_b)
        &&& self.not.wired(signal_a)
        &&& self.and.wired(!signal_a, signal_b)
    }

    pub fn new() -> Self {
        HalfSubtractor { xor: Xor::new(), not: Not::new(), and: And::new() }
    }

    pub fn evaluate(&mut self, signal_a: bool, signal_b: bool) -> (r: SubtractorResult)
        ensures
            r.difference == (signal_a != signal_b),
            r.borrow_out == (!signal_a && signal_b),
            digit(signal_a) - digit(signal_b) == digit(r.difference) - 2 * digit(r.borrow_out),
            final(self).wired(signal_a, signal_b),
    {
        let difference = self.xor.evaluate(signal_a, signal_b);
        let not_signal_a = self.not.evaluate(signal_a);
        let borrow_out = self.and.evaluate(not_signal_a, signal_b);
        SubtractorResult { difference, borrow_out }
    }
}

/// Subtracts one digit and an incoming borrow from another.
pub struct FullSubtractor {
    xor0: Xor,
    xor1: Xor,
    not0: Not,
    not1: Not,
    and0: And,
    and1: And,
    or: Or,
}

impl FullSubtractor {
    /// The XOR chain forms the difference; the borrow is the OR of
    /// `!signal_a` ANDed with `signal_b` and of the complemented first XOR
    /// ANDed with the incoming borrow.
    pub closed spec fn wired(&self, signal_a: bool, signal_b: bool, borrow_in: bool) -> bool {
        let half = signal_a != signal_b;
        &&& self.xor0.wired(signal_a, signal_b)
        &&& self.xor1.wired(half, borrow_in)
        &&& self.not0.wired(signal_a)
        &&& self.and0.wired(!signal_a, signal_b)
        &&& self.not1.wired(half)
        &&& self.and1.wired(!half, borrow_in)
        &&& self.or.wired(!signal_a && signal_b, !half && borrow_in)
    }

    pub fn new() -> Self {
        FullSubtractor {
            xor0: Xor::new(),
            xor1: Xor::new(),
            not0: Not::new(),
            not1: Not::new(),
            and0: And::new(),
            and1: And::new(),
            or: Or::new(),
        }
    }

    pub fn evaluate(&mut self, signal_a: bool, signal_b: bool, borrow_in: bool) -> (r:
        SubtractorResult)
        ensures
            r.difference == ((signal_a != signal_b) != borrow_in),
            r.borrow_out == ((!signal_a && signal_b) || (signal_a == signal_b && borrow_in)),
            digit(signal_a) - digit(signal_b) - digit(borrow_in) == digit(r.difference) - 2
                * digit(r.borrow_out),
            final(self).wired(signal_a, signal_b, borrow_in),
    {
        let xor0_result = self.xor0.evaluate(signal_a, signal_b);
        let difference = self.xor1.evaluate(xor0_result, borrow_in);
        let not_signal_a = self.not0.evaluate(signal_a);
        let and0_result = self.and0.evaluate(not_signal_a, signal_b);
        let not1_result = self.not1.evaluate(xor0_result);
        let and1_result = self.and1.evaluate(not1_result, borrow_in);
        let borrow_out = self.or.evaluate(and0_result, and1_result);
        SubtractorResult { difference, borrow_out }
    }
}

/// A full subtractor whose digit output is chosen by a multiplexer: the
/// difference when `carry` is high, the original `signal_a` otherwise.
pub struct FullSubtractorRestore {
    full_subtractor: FullSubtractor,
    mux: Mux2To1,
}

impl FullSubtractorRestore {
    /// The subtractor takes the inputs; the multiplexer chooses between
    /// `signal_a` and the difference under `carry`.
    pub closed spec fn wired(&self, signal_a: bool, signal_b: bool, borrow_in: bool, carry: bool) -> bool {
        &&& self.full_subtractor.wired(signal_a, signal_b, borrow_in)
        &&& self.mux.wired(signal_a, (signal_a != signal_b) != borrow_in, carry)
    }

    pub fn new() -> Self {
        FullSubtractorRestore { full_subtractor: FullSubtractor::new(), mux: Mux2To1::new() }
    }

    /// Returns (selected digit, borrow out of the subtraction).
    pub fn evaluate(&mut self, signal_a: bool, signal_b: bool, borrow_in: bool, carry: bool) -> (r:
        (bool, bool))
        ensures
            r.0 == if carry {
                (signal_a != signal_b) != borrow_in
            } else {
                signal_a
            },
            r.1 == ((!signal_a && signal_b) || (signal_a == signal_b && borrow_in)),
            digit(signal_a) - digit(signal_b) - digit(borrow_in) == digit(
                (signal_a != signal_b) != borrow_in,
            ) - 2 * digit(r.1),
            final(self).wired(signal_a, signal_b, borrow_in, carry),
    {
        let subtractor_result = self.full_subtractor.evaluate(signal_a, signal_b, borrow_in);
        let mux_result = self.mux.evaluate(signal_a, subtractor_result.difference, carry);
        (mux_result, subtractor_result.borrow_out)
    }
}

} // verus!
