use vstd::prelude::*;
use crate::gates::{And, Not};

verus! {

/// One-to-two demultiplexer: routes the input to one of two outputs and
/// holds the other low.
pub struct Demux1To2 {
    not: Not,
    and0: And,
    and1: And,
}

impl Demux1To2 {
    /// The inverter takes the select line; one AND gate passes the input
    /// under its complement, the other under it.
    pub closed spec fn wired(&self, signal: bool, select: bool) -> bool {
        &&& self.not.wired(select)
        &&& self.and0.wired(!select, signal)
        &&& self.and1.wired(signal, select)
    }

    pub fn new() -> Self {
        Demux1To2 { not: Not::new(), and0: And::new(), and1: And::new() }
    }

    /// The pair is (output for a high select line, output for a low one).
    pub fn evaluate(&mut self, signal: bool, select: bool) -> (r: (bool, bool))
        ensures
            r.0 == (signal && select),
            r.1 == (signal && !select),
            final(self).wired(signal, select),
    {
        let not_result = self.not.evaluate(select);
        let and0_result = self.and0.evaluate(not_result, signal);
        let and1_result = self.and1.evaluate(signal, select);
        (and1_result, and0_result)
    }
}

} // verus!
