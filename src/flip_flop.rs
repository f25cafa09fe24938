use vstd::prelude::*;
use crate::gates::{Nand, Not};

verus! {

/// Relies on `rand::random::<bool>`: any signal at all, used only as the
/// undefined state of a latch that was never reset.
#[verifier::external_body]
pub(crate) fn random_signal() -> bool {
    rand::random::<bool>()
}

/// What the latch holds after one clock tick: the gated set and reset lines
/// feed the cross-coupled NAND pair, which is evaluated twice so that the
/// feedback settles.
pub open spec fn tick_outcome(set: bool, reset: bool, enable: bool, q: bool, q_bar: bool) -> (
    bool,
    bool,
) {
    let nand0 = !(set && enable);
    let nand1 = !(enable && reset);
    let first_q_bar = !(q && nand1);
    let next_q = !(nand0 && first_q_bar);
    let next_q_bar = !(next_q && nand1);
    (next_q, next_q_bar)
}

/// From the reset state, loading `d` with the clock enabled yields `(d, !d)`,
/// and a following tick with the clock disabled keeps it.
pub proof fn lemma_load_then_retain(d: bool)
    ensures
        tick_outcome(d, !d, true, false, true) == (d, !d),
        tick_outcome(d, !d, false, d, !d) == (d, !d),
{
}

/// A gated D latch built from four NAND gates, with an inverter deriving the
/// reset line from the data input.
pub struct DFlipFlop {
    nand0: Nand,
    nand1: Nand,
    nand2: Nand,
    nand3: Nand,
    not: Not,
    set: bool,
    reset: bool,
    pub q: bool,
    pub q_bar: bool,
}

impl DFlipFlop {
    /// The pending set line.
    pub closed spec fn set_line(&self) -> bool {
        self.set
    }

    /// The pending reset line.
    pub closed spec fn reset_line(&self) -> bool {
        self.reset
    }

    /// The stored output `q`.
    pub closed spec fn q_out(&self) -> bool {
        self.q
    }

    /// The complementary output `q_bar`.
    pub closed spec fn q_bar_out(&self) -> bool {
        self.q_bar
    }

    /// The stored output.
    pub fn stored(&self) -> (r: bool)
        ensures
            r == self.q_out(),
    {
        self.q
    }

    /// A latch in an undefined power-on state: all four signals are arbitrary.
    pub fn new() -> Self {
        let set = random_signal();
        let reset = random_signal();
        let q = random_signal();
        let q_bar = random_signal();
        DFlipFlop::with_state(set, reset, q, q_bar)
    }

    /// A latch with the given pending inputs and outputs.
    pub fn with_state(set: bool, reset: bool, q: bool, q_bar: bool) -> (r: DFlipFlop)
        ensures
            r.set_line() == set,
            r.reset_line() == reset,
            r.q_out() == q,
            r.q_bar_out() == q_bar,
    {
        DFlipFlop {
            nand0: Nand::new(),
            nand1: Nand::new(),
            nand2: Nand::new(),
            nand3: Nand::new(),
            not: Not::new(),
            set,
            reset,
            q,
            q_bar,
        }
    }

    pub fn set_sr(&mut self, set: bool, reset: bool)
        ensures
            final(self).set_line() == set,
            final(self).reset_line() == reset,
            final(self).q_out() == old(self).q_out(),
            final(self).q_bar_out() == old(self).q_bar_out(),
    {
        self.set = set;
        self.reset = reset;
    }

    /// Sets the pending input to `d`: set follows `d`, reset its complement.
    pub fn set_d(&mut self, d: bool)
        ensures
            final(self).set_line() == d,
            final(self).reset_line() == !d,
            final(self).q_out() == old(self).q_out(),
            final(self).q_bar_out() == old(self).q_bar_out(),
    {
        let not_d = self.not.evaluate(d);
        self.set_sr(d, not_d);
    }

    pub fn output(&mut self) -> (r: (bool, bool))
        ensures
            r == (old(self).q_out(), old(self).q_bar_out()),
            *final(self) == *old(self),
    {
        (self.q, self.q_bar)
    }

    /// Forces the stable low state, with a low pending input.
    pub fn reset_states(&mut self)
        ensures
            final(self).set_line() == false,
            final(self).reset_line() == true,
            final(self).q_out() == false,
            final(self).q_bar_out() == true,
    {
        self.set = false;
        self.reset = true;
        self.q = false;
        self.q_bar = true;
    }

    /// One clock tick. With the clock enabled a high set line stores a high
    /// signal and a high reset line a low one; otherwise `q` is kept and
    /// `q_bar` settles to its complement.
    pub fn clock_tick(&mut self, enable: bool) -> (r: (bool, bool))
        requires
            !(old(self).set_line() && old(self).reset_line()),
        ensures
            (final(self).q_out(), final(self).q_bar_out()) == tick_outcome(
                old(self).set_line(),
                old(self).reset_line(),
                enable,
                old(self).q_out(),
                old(self).q_bar_out(),
            ),
            r == (final(self).q_out(), final(self).q_bar_out()),
            final(self).set_line() == old(self).set_line(),
            final(self).reset_line() == old(self).reset_line(),
            enable && old(self).set_line() ==> r == (true, false),
            enable && old(self).reset_line() ==> r == (false, true),
            !enable || (!old(self).set_line() && !old(self).reset_line()) ==> r == (
                old(self).q_out(),
                !old(self).q_out(),
            ),
    {
        let nand0_result = self.nand0.evaluate(self.set, enable);
        let nand1_result = self.nand1.evaluate(enable, self.reset);

        let mut next_q = self.nand2.evaluate(nand0_result, self.q_bar);
        let mut next_q_bar = self.nand3.evaluate(self.q, nand1_result);

        next_q = self.nand2.evaluate(nand0_result, next_q_bar);
        next_q_bar = self.nand3.evaluate(next_q, nand1_result);

        self.q = next_q;
        self.q_bar = next_q_bar;

        self.output()
    }
}

} // verus!
