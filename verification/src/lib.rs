//! A small register-transfer-level modeling core: fixed-width signal values,
//! combinational rules over an expression language, clocked registers, a
//! two-phase update scheduler, a cycle-accurate simulator driven by testbench
//! scripts, and a Verilog-compatible text emitter for cross-validation against
//! an external reference simulator.

#![verifier::loop_isolation(false)]

pub mod circuits;
pub mod emit;
pub mod errors;
pub mod expr;
pub mod graph;
pub mod sched;
pub mod sim;
pub mod value;
pub mod vcd;
pub mod xval;

