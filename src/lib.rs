//! A CHIP-8 virtual machine: instruction decoding, the machine state, and an
//! execution engine that runs one fetch/decode/execute/timer cycle at a time.

pub mod opcode;
pub mod machine;
pub mod engine;
pub mod laws;
pub mod keypad;
