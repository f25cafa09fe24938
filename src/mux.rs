use vstd::prelude::*;
use crate::gates::{And, Not, Or};

verus! {

/// Two-to-one multiplexer: passes `signal_a` when the select line is low and
/// `signal_b` when it is high.
pub struct Mux2To1 {
    not: Not,
    and0: And,
    and1: And,
    or: Or,
}

impl Mux2To1 {
    /// The inverter takes the select line, the AND gates pass `signal_a`
    /// under its complement and `signal_b` under it, and the OR joins them.
    pub closed spec fn wired(&self, signal_a: bool, signal_b: bool, select: bool) -> bool {
        &&& self.not.wired(select)
        &&& self.and0.wired(signal_a, !select)
        &&& self.and1.wired(signal_b, select)
        &&& self.or.wired(signal_a && !select, signal_b && select)
    }

    pub fn new() -> Self {
        Mux2To1 { not: Not::new(), and0: And::new(), and1: And::new(), or: Or::new() }
    }

    pub fn evaluate(&mut self, signal_a: bool, signal_b: bool, select: bool) -> (r: bool)
        ensures
            r == if select {
                signal_b
            } else {
                signal_a
            },
            final(self).wired(signal_a, signal_b, select),
    {
        let not_result = self.not.evaluate(select);
        let and0_result = self.and0.evaluate(signal_a, not_result);
        let and1_result = self.and1.evaluate(signal_b, select);
        self.or.evaluate(and0_result, and1_result)
    }
}

} // verus!
