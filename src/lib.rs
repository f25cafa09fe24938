pub mod adder;
pub mod bits;
pub mod bitwise;
pub mod bitwise_add;
pub mod bitwise_div;
pub mod bitwise_mult;
pub mod bitwise_sub;
pub mod decoder;
pub mod demux;
pub mod flip_flop;
pub mod gates;
pub mod mux;
pub mod register;
pub mod shifter;
pub mod subtractor;
pub mod transistor;

pub use adder::{AdderResult, FullAdder, HalfAdder};
pub use bits::Bits;
pub use bitwise::{Bitwise, BitwiseCheck};
pub use bitwise_add::BitwiseAdd;
pub use bitwise_div::BitwiseDiv;
pub use bitwise_mult::BitwiseMult;
pub use bitwise_sub::BitwiseSub;
pub use decoder::{Decoder, Decoder2To4};
pub use demux::Demux1To2;
pub use flip_flop::DFlipFlop;
pub use gates::{And, And3, Gate, GateInput, Nand, Nor, Not, Or, Xnor, Xor};
pub use mux::Mux2To1;
pub use register::PIPORegister;
pub use shifter::BarrelShifter;
pub use subtractor::{FullSubtractor, FullSubtractorRestore, HalfSubtractor, SubtractorResult};
pub use transistor::{NMOSTransistor, PMOSTransistor, Transistor, TransistorState, GND, VDD};
