use vstd::prelude::*;
use crate::transistor::{NMOSTransistor, PMOSTransistor, Transistor, GND, VDD};

verus! {

/// The input signals of a gate, one variant per arity.
pub enum GateInput {
    Single(bool),
    Dual(bool, bool),
    Triple(bool, bool, bool),
}

/// A stateless gate driven through its arity-tagged input.
pub trait Gate {
    /// Whether the input has the arity this gate takes.
    spec fn accepts(input: GateInput) -> bool;

    /// The output for a well-formed input.
    spec fn truth(input: GateInput) -> bool;

    fn evaluate(&mut self, input: GateInput) -> (r: bool)
        requires
            Self::accepts(input),
        ensures
            r == Self::truth(input),
    ;
}

/// Inverter: one PMOS pull-up from VDD and one NMOS pull-down to GND.
pub struct Not {
    nmos: NMOSTransistor,
    pmos: PMOSTransistor,
}

impl Not {
    /// Both transistors are gated by `signal`; the NMOS is sourced from GND
    /// and the PMOS from VDD.
    pub closed spec fn wired(&self, signal: bool) -> bool {
        &&& self.nmos.control() == signal
        &&& self.pmos.control() == signal
        &&& self.nmos.source() == GND
        &&& self.pmos.source() == VDD
    }

    pub fn new() -> Self {
        Not { nmos: NMOSTransistor::new(), pmos: PMOSTransistor::new() }
    }

    pub fn evaluate(&mut self, signal: bool) -> (r: bool)
        ensures
            r == !signal,
            final(self).wired(signal),
    {
        self.nmos.apply_control_signal(signal);
        self.pmos.apply_control_signal(signal);

        self.nmos.connect_source(GND);
        self.pmos.connect_source(VDD);

        self.pmos.drain() && !self.nmos.drain()
    }
}

impl Gate for Not {
    open spec fn accepts(input: GateInput) -> bool {
        input is Single
    }

    open spec fn truth(input: GateInput) -> bool {
        match input {
            GateInput::Single(a) => !a,
            _ => false,
        }
    }

    fn evaluate(&mut self, input: GateInput) -> (r: bool) {
        match input {
            GateInput::Single(a) => Not::evaluate(self, a),
            _ => false,
        }
    }
}

/// Two NMOS in series to GND, two PMOS in parallel from VDD.
pub struct Nand {
    nmos_a: NMOSTransistor,
    nmos_b: NMOSTransistor,
    pmos_a: PMOSTransistor,
    pmos_b: PMOSTransistor,
}

impl Nand {
    /// The `a` pair is gated by `signal_a`, the `b` pair by `signal_b`; both
    /// PMOS are sourced from VDD, `nmos_b` from GND and `nmos_a` from the
    /// drain of `nmos_b`.
    pub closed spec fn wired(&self, signal_a: bool, signal_b: bool) -> bool {
        &&& self.nmos_a.control() == signal_a
        &&& self.pmos_a.control() == signal_a
        &&& self.nmos_b.control() == signal_b
        &&& self.pmos_b.control() == signal_b
        &&& self.pmos_a.source() == VDD
        &&& self.pmos_b.source() == VDD
        &&& self.nmos_b.source() == GND
        &&& self.nmos_a.source() == self.nmos_b.conducts()
    }

    pub fn new() -> Self {
        Nand {
            nmos_a: NMOSTransistor::new(),
            nmos_b: NMOSTransistor::new(),
            pmos_a: PMOSTransistor::new(),
            pmos_b: PMOSTransistor::new(),
        }
    }

    pub fn evaluate(&mut self, signal_a: bool, signal_b: bool) -> (r: bool)
        ensures
            r == !(signal_a && signal_b),
            final(self).wired(signal_a, signal_b),
    {
        self.nmos_a.apply_control_signal(signal_a);
        self.pmos_a.apply_control_signal(signal_a);
        self.nmos_b.apply_control_signal(signal_b);
        self.pmos_b.apply_control_signal(signal_b);

        self.pmos_a.connect_source(VDD);
        self.pmos_b.connect_source(VDD);

        self.nmos_b.connect_source(GND);
        let nmos_b_drain = self.nmos_b.drain();
        self.nmos_a.connect_source(nmos_b_drain);

        (self.pmos_a.drain() || self.pmos_b.drain()) && !self.nmos_a.drain()
    }
}

impl Gate for Nand {
    open spec fn accepts(input: GateInput) -> bool {
        input is Dual
    }

    open spec fn truth(input: GateInput) -> bool {
        match input {
            GateInput::Dual(a, b) => !(a && b),
            _ => false,
        }
    }

    fn evaluate(&mut self, input: GateInput) -> (r: bool) {
        match input {
            GateInput::Dual(a, b) => Nand::evaluate(self, a, b),
            _ => false,
        }
    }
}

/// Two PMOS in series from VDD, two NMOS in parallel to GND.
pub struct Nor {
    nmos_a: NMOSTransistor,
    nmos_b: NMOSTransistor,
    pmos_a: PMOSTransistor,
    pmos_b: PMOSTransistor,
}

impl Nor {
    /// The `a` pair is gated by `signal_a`, the `b` pair by `signal_b`; both
    /// NMOS are sourced from GND, `pmos_a` from VDD and `pmos_b` from the
    /// drain of `pmos_a`.
    pub closed spec fn wired(&self, signal_a: bool, signal_b: bool) -> bool {
        &&& self.nmos_a.control() == signal_a
        &&& self.pmos_a.control() == signal_a
        &&& self.nmos_b.control() == signal_b
        &&& self.pmos_b.control() == signal_b
        &&& self.nmos_a.source() == GND
        &&& self.nmos_b.source() == GND
        &&& self.pmos_a.source() == VDD
        &&& self.pmos_b.source() == self.pmos_a.conducts()
    }

    pub fn new() -> Self {
        Nor {
            nmos_a: NMOSTransistor::new(),
            nmos_b: NMOSTransistor::new(),
            pmos_a: PMOSTransistor::new(),
            pmos_b: PMOSTransistor::new(),
        }
    }

    pub fn evaluate(&mut self, signal_a: bool, signal_b: bool) -> (r: bool)
        ensures
            r == !(signal_a || signal_b),
            final(self).wired(signal_a, signal_b),
    {
        self.nmos_a.apply_control_signal(signal_a);
        self.pmos_a.apply_control_signal(signal_a);
        self.nmos_b.apply_control_signal(signal_b);
        self.pmos_b.apply_control_signal(signal_b);

        self.nmos_a.connect_source(GND);
        self.nmos_b.connect_source(GND);

        self.pmos_a.connect_source(VDD);
        let pmos_a_drain = self.pmos_a.drain();
        self.pmos_b.connect_source(pmos_a_drain);

        self.pmos_b.drain() && !(self.nmos_a.drain() || self.nmos_b.drain())
    }
}

impl Gate for Nor {
    open spec fn accepts(input: GateInput) -> bool {
        input is Dual
    }

    open spec fn truth(input: GateInput) -> bool {
        match input {
            GateInput::Dual(a, b) => !(a || b),
            _ => false,
        }
    }

    fn evaluate(&mut self, input: GateInput) -> (r: bool) {
        match input {
            GateInput::Dual(a, b) => Nor::evaluate(self, a, b),
            _ => false,
        }
    }
}

/// A NAND followed by an inverter.
pub struct And {
    nand: Nand,
    not: Not,
}

impl And {
    /// The NAND is driven by the inputs and the inverter by its output.
    pub closed spec fn wired(&self, signal_a: bool, signal_b: bool) -> bool {
        &&& self.nand.wired(signal_a, signal_b)
        &&& self.not.wired(!(signal_a && signal_b))
    }

    pub fn new() -> Self {
        And { nand: Nand::new(), not: Not::new() }
    }

    pub fn evaluate(&mut self, signal_a: bool, signal_b: bool) -> (r: bool)
        ensures
            r == (signal_a && signal_b),
            final(self).wired(signal_a, signal_b),
    {
        let nand_result = self.nand.evaluate(signal_a, signal_b);
        self.not.evaluate(nand_result)
    }
}

impl Gate for And {
    open spec fn accepts(input: GateInput) -> bool {
        input is Dual
    }

    open spec fn truth(input: GateInput) -> bool {
        match input {
            GateInput::Dual(a, b) => a && b,
            _ => false,
        }
    }

    fn evaluate(&mut self, input: GateInput) -> (r: bool) {
        match input {
            GateInput::Dual(a, b) => And::evaluate(self, a, b),
            _ => false,
        }
    }
}

/// Two chained AND gates.
pub struct And3 {
    and0: And,
    and1: And,
}

impl And3 {
    /// The first AND takes `signal_a` and `signal_b`, the second its output
    /// and `signal_c`.
    pub closed spec fn wired(&self, signal_a: bool, signal_b: bool, signal_c: bool) -> bool {
        &&& self.and0.wired(signal_a, signal_b)
        &&& self.and1.wired(signal_a && signal_b, signal_c)
    }

    pub fn new() -> Self {
        And3 { and0: And::new(), and1: And::new() }
    }

    pub fn evaluate(&mut self, signal_a: bool, signal_b: bool, signal_c: bool) -> (r: bool)
        ensures
            r == (signal_a && signal_b && signal_c),
            final(self).wired(signal_a, signal_b, signal_c),
    {
        let and0_result = self.and0.evaluate(signal_a, signal_b);
        self.and1.evaluate(and0_result, signal_c)
    }
}

impl Gate for And3 {
    open spec fn accepts(input: GateInput) -> bool {
        input is Triple
    }

    open spec fn truth(input: GateInput) -> bool {
        match input {
            GateInput::Triple(a, b, c) => a && b && c,
            _ => false,
        }
    }

    fn evaluate(&mut self, input: GateInput) -> (r: bool) {
        match input {
            GateInput::Triple(a, b, c) => And3::evaluate(self, a, b, c),
            _ => false,
        }
    }
}

/// A NOR followed by an inverter.
pub struct Or {
    nor: Nor,
    not: Not,
}

impl Or {
    /// The NOR is driven by the inputs and the inverter by its output.
    pub closed spec fn wired(&self, signal_a: bool, signal_b: bool) -> bool {
        &&& self.nor.wired(signal_a, signal_b)
        &&& self.not.wired(!(signal_a || signal_b))
    }

    pub fn new() -> Self {
        Or { nor: Nor::new(), not: Not::new() }
    }

    pub fn evaluate(&mut self, signal_a: bool, signal_b: bool) -> (r: bool)
        ensures
            r == (signal_a || signal_b),
            final(self).wired(signal_a, signal_b),
    {
        let nor_result = self.nor.evaluate(signal_a, signal_b);
        self.not.evaluate(nor_result)
    }
}

impl Gate for Or {
    open spec fn accepts(input: GateInput) -> bool {
        input is Dual
    }

    open spec fn truth(input: GateInput) -> bool {
        match input {
            GateInput::Dual(a, b) => a || b,
            _ => false,
        }
    }

    fn evaluate(&mut self, input: GateInput) -> (r: bool) {
        match input {
            GateInput::Dual(a, b) => Or::evaluate(self, a, b),
            _ => false,
        }
    }
}

/// Eight transistors: complementary PMOS pairs chained from VDD and NMOS
/// pairs chained to GND, on `a`, `!a`, `b` and `!b`.
pub struct Xor {
    pmos_a: PMOSTransistor,
    pmos_a_bar: PMOSTransistor,
    pmos_b: PMOSTransistor,
    pmos_b_bar: PMOSTransistor,
    nmos_a: NMOSTransistor,
    nmos_a_bar: NMOSTransistor,
    nmos_b: NMOSTransistor,
    nmos_b_bar: NMOSTransistor,
}

impl Xor {
    /// Each transistor is gated by `a`, `!a`, `b` or `!b` as its name says;
    /// the `a` stage is sourced from the rails, `pmos_b_bar` and `pmos_b`
    /// from the drains of `pmos_a` and `pmos_a_bar`, and `nmos_a` and
    /// `nmos_a_bar` from the drains of `nmos_b` and `nmos_b_bar`.
    pub closed spec fn wired(&self, signal_a: bool, signal_b: bool) -> bool {
        &&& self.pmos_a.control() == signal_a
        &&& self.pmos_a_bar.control() == !signal_a
        &&& self.pmos_b.control() == signal_b
        &&& self.pmos_b_bar.control() == !signal_b
        &&& self.nmos_a.control() == signal_a
        &&& self.nmos_a_bar.control() == !signal_a
        &&& self.nmos_b.control() == signal_b
        &&& self.nmos_b_bar.control() == !signal_b
        &&& self.pmos_a.source() == VDD
        &&& self.pmos_a_bar.source() == VDD
        &&& self.nmos_b.source() == GND
        &&& self.nmos_b_bar.source() == GND
        &&& self.pmos_b_bar.source() == self.pmos_a.conducts()
        &&& self.pmos_b.source() == self.pmos_a_bar.conducts()
        &&& self.nmos_a.source() == self.nmos_b.conducts()
        &&& self.nmos_a_bar.source() == self.nmos_b_bar.conducts()
    }

    pub fn new() -> Self {
        Xor {
            pmos_a: PMOSTransistor::new(),
            pmos_a_bar: PMOSTransistor::new(),
            pmos_b: PMOSTransistor::new(),
            pmos_b_bar: PMOSTransistor::new(),
            nmos_a: NMOSTransistor::new(),
            nmos_a_bar: NMOSTransistor::new(),
            nmos_b: NMOSTransistor::new(),
            nmos_b_bar: NMOSTransistor::new(),
        }
    }

    pub fn evaluate(&mut self, signal_a: bool, signal_b: bool) -> (r: bool)
        ensures
            r == (signal_a != signal_b),
            final(self).wired(signal_a, signal_b),
    {
        self.pmos_a.apply_control_signal(signal_a);
        self.pmos_a_bar.apply_control_signal(!signal_a);
        self.pmos_b_bar.apply_control_signal(!signal_b);
        self.pmos_b.apply_control_signal(signal_b);

        self.nmos_a.apply_control_signal(signal_a);
        self.nmos_a_bar.apply_control_signal(!signal_a);
        self.nmos_b.apply_control_signal(signal_b);
        self.nmos_b_bar.apply_control_signal(!signal_b);

        self.pmos_a.connect_source(VDD);
        self.pmos_a_bar.connect_source(VDD);
        self.nmos_b.connect_source(GND);
        self.nmos_b_bar.connect_source(GND);

        let pmos_a_drain = self.pmos_a.drain();
        self.pmos_b_bar.connect_source(pmos_a_drain);
        let pmos_a_bar_drain = self.pmos_a_bar.drain();
        self.pmos_b.connect_source(pmos_a_bar_drain);
        let nmos_b_drain = self.nmos_b.drain();
        self.nmos_a.connect_source(nmos_b_drain);
        let nmos_b_bar_drain = self.nmos_b_bar.drain();
        self.nmos_a_bar.connect_source(nmos_b_bar_drain);

        (self.pmos_b.drain() || self.pmos_b_bar.drain()) && (!self.nmos_a_bar.drain()
            || !self.nmos_a.drain())
    }
}

impl Gate for Xor {
    open spec fn accepts(input: GateInput) -> bool {
        input is Dual
    }

    open spec fn truth(input: GateInput) -> bool {
        match input {
            GateInput::Dual(a, b) => a != b,
            _ => false,
        }
    }

    fn evaluate(&mut self, input: GateInput) -> (r: bool) {
        match input {
            GateInput::Dual(a, b) => Xor::evaluate(self, a, b),
            _ => false,
        }
    }
}

/// The XOR network with the complemented signals swapped between the
/// second-stage transistors.
pub struct Xnor {
    pmos_a: PMOSTransistor,
    pmos_a_bar: PMOSTransistor,
    pmos_b: PMOSTransistor,
    pmos_b_bar: PMOSTransistor,
    nmos_a: NMOSTransistor,
    nmos_a_bar: NMOSTransistor,
    nmos_b: NMOSTransistor,
    nmos_b_bar: NMOSTransistor,
}

impl Xnor {
    /// Gated as in XOR, with the second stage crossed: `pmos_b` and
    /// `pmos_b_bar` are sourced from the drains of `pmos_a` and `pmos_a_bar`,
    /// and `nmos_a` and `nmos_a_bar` from the drains of `nmos_b_bar` and
    /// `nmos_b`.
    pub closed spec fn wired(&self, signal_a: bool, signal_b: bool) -> bool {
        &&& self.pmos_a.control() == signal_a
        &&& self.pmos_a_bar.control() == !signal_a
        &&& self.pmos_b.control() == signal_b
        &&& self.pmos_b_bar.control() == !signal_b
        &&& self.nmos_a.control() == signal_a
        &&& self.nmos_a_bar.control() == !signal_a
        &&& self.nmos_b.control() == signal_b
        &&& self.nmos_b_bar.control() == !signal_b
        &&& self.pmos_a.source() == VDD
        &&& self.pmos_a_bar.source() == VDD
        &&& self.nmos_b.source() == GND
        &&& self.nmos_b_bar.source() == GND
        &&& self.pmos_b.source() == self.pmos_a.conducts()
        &&& self.pmos_b_bar.source() == self.pmos_a_bar.conducts()
        &&& self.nmos_a.source() == self.nmos_b_bar.conducts()
        &&& self.nmos_a_bar.source() == self.nmos_b.conducts()
    }

    pub fn new() -> Self {
        Xnor {
            pmos_a: PMOSTransistor::new(),
            pmos_a_bar: PMOSTransistor::new(),
            pmos_b: PMOSTransistor::new(),
            pmos_b_bar: PMOSTransistor::new(),
            nmos_a: NMOSTransistor::new(),
            nmos_a_bar: NMOSTransistor::new(),
            nmos_b: NMOSTransistor::new(),
            nmos_b_bar: NMOSTransistor::new(),
        }
    }

    pub fn evaluate(&mut self, signal_a: bool, signal_b: bool) -> (r: bool)
        ensures
            r == (signal_a == signal_b),
            final(self).wired(signal_a, signal_b),
    {
        self.pmos_a.apply_control_signal(signal_a);
        self.pmos_a_bar.apply_control_signal(!signal_a);
        self.pmos_b.apply_control_signal(signal_b);
        self.pmos_b_bar.apply_control_signal(!signal_b);

        self.nmos_a.apply_control_signal(signal_a);
        self.nmos_a_bar.apply_control_signal(!signal_a);
        self.nmos_b_bar.apply_control_signal(!signal_b);
        self.nmos_b.apply_control_signal(signal_b);

        self.pmos_a.connect_source(VDD);
        self.pmos_a_bar.connect_source(VDD);
        self.nmos_b_bar.connect_source(GND);
        self.nmos_b.connect_source(GND);

        let pmos_a_drain = self.pmos_a.drain();
        self.pmos_b.connect_source(pmos_a_drain);
        let pmos_a_bar_drain = self.pmos_a_bar.drain();
        self.pmos_b_bar.connect_source(pmos_a_bar_drain);
        let nmos_b_bar_drain = self.nmos_b_bar.drain();
        self.nmos_a.connect_source(nmos_b_bar_drain);
        let nmos_b_drain = self.nmos_b.drain();
        self.nmos_a_bar.connect_source(nmos_b_drain);

        (self.pmos_b.drain() || self.pmos_b_bar.drain()) && (!self.nmos_a_bar.drain()
            || !self.nmos_a.drain())
    }
}

impl Gate for Xnor {
    open spec fn accepts(input: GateInput) -> bool {
        input is Dual
    }

    open spec fn truth(input: GateInput) -> bool {
        match input {
            GateInput::Dual(a, b) => a == b,
            _ => false,
        }
    }

    fn evaluate(&mut self, input: GateInput) -> (r: bool) {
        match input {
            GateInput::Dual(a, b) => Xnor::evaluate(self, a, b),
            _ => false,
        }
    }
}

} // verus!
