use vstd::prelude::*;

verus! {

/// Ground: the low signal level.
pub const GND: bool = false;

/// Supply: the high signal level.
pub const VDD: bool = true;

/// A switch with a control gate, a source and a drain. The drain is read
/// from the current inputs alone; nothing is latched.
pub trait Transistor {
    /// The signal last applied to the control gate.
    spec fn control(&self) -> bool;

    /// The signal last connected to the source.
    spec fn source(&self) -> bool;

    /// Whether the source reaches the drain under the current inputs.
    spec fn conducts(&self) -> bool;

    fn apply_control_signal(&mut self, signal: bool)
        ensures
            final(self).control() == signal,
            final(self).source() == old(self).source(),
    ;

    fn connect_source(&mut self, source: bool)
        ensures
            final(self).source() == source,
            final(self).control() == old(self).control(),
    ;

    fn is_conducting(&self) -> (r: bool)
        ensures
            r == self.conducts(),
    ;

    fn drain(&self) -> (r: bool)
        ensures
            r == self.conducts(),
    {
        self.is_conducting()
    }
}

/// The two inputs of a transistor.
pub struct TransistorState {
    control_gate: bool,
    source: bool,
}

impl TransistorState {
    pub closed spec fn control_spec(&self) -> bool {
        self.control_gate
    }

    pub closed spec fn source_spec(&self) -> bool {
        self.source
    }

    pub fn apply_control_signal(&mut self, signal: bool)
        ensures
            final(self).control_spec() == signal,
            final(self).source_spec() == old(self).source_spec(),
    {
        self.control_gate = signal;
    }

    pub fn connect_source(&mut self, source: bool)
        ensures
            final(self).source_spec() == source,
            final(self).control_spec() == old(self).control_spec(),
    {
        self.source = source;
    }

    pub fn control_gate(&self) -> (r: bool)
        ensures
            r == self.control_spec(),
    {
        self.control_gate
    }

    pub fn source(&self) -> (r: bool)
        ensures
            r == self.source_spec(),
    {
        self.source
    }
}

impl Default for TransistorState {
    fn default() -> (r: TransistorState)
        ensures
            !r.control_spec(),
            !r.source_spec(),
    {
        TransistorState { control_gate: false, source: false }
    }
}

/// Conducts when its control gate and its source are both high.
pub struct NMOSTransistor {
    state: TransistorState,
}

impl NMOSTransistor {
    pub fn new() -> (r: NMOSTransistor)
        ensures
            !r.control(),
            !r.source(),
    {
        NMOSTransistor { state: TransistorState::default() }
    }
}

impl Transistor for NMOSTransistor {
    closed spec fn control(&self) -> bool {
        self.state.control_spec()
    }

    closed spec fn source(&self) -> bool {
        self.state.source_spec()
    }

    open spec fn conducts(&self) -> bool {
        self.control() && self.source()
    }

    fn apply_control_signal(&mut self, signal: bool) {
        self.state.apply_control_signal(signal);
    }

    fn connect_source(&mut self, source: bool) {
        self.state.connect_source(source);
    }

    fn is_conducting(&self) -> (r: bool) {
        self.state.control_gate() && self.state.source()
    }
}

/// Conducts when its control gate is low and its source is high.
pub struct PMOSTransistor {
    state: TransistorState,
}

impl PMOSTransistor {
    pub fn new() -> (r: PMOSTransistor)
        ensures
            !r.control(),
            !r.source(),
    {
        PMOSTransistor { state: TransistorState::default() }
    }
}

impl Transistor for PMOSTransistor {
    closed spec fn control(&self) -> bool {
        self.state.control_spec()
    }

    closed spec fn source(&self) -> bool {
        self.state.source_spec()
    }

    open spec fn conducts(&self) -> bool {
        !self.control() && self.source()
    }

    fn apply_control_signal(&mut self, signal: bool) {
        self.state.apply_control_signal(signal);
    }

    fn connect_source(&mut self, source: bool) {
        self.state.connect_source(source);
    }

    fn is_conducting(&self) -> (r: bool) {
        !self.state.control_gate() && self.state.source()
    }
}

} // verus!
