//! Short names for the literal-circuit types.
pub use crate::lit_circuit::GateCount;
pub use crate::lit_circuit::TestCircuit as Circuit;
pub use crate::lit_circuit::TestGate as Gate;
pub use crate::lit_circuit::TestWire as Wire;
pub use crate::lit_circuit::TestWirex as Wirex;
pub use crate::lit_circuit::TestWires as Wires;
