//! Decoder for the BEAM bytecode container: chunk framing and the code
//! section's operand and instruction encodings, with contracts stated over
//! byte sequences.

pub mod ast;
pub mod bytes;
pub mod code;
pub mod container;
pub mod error;
pub mod literal;
pub mod opcode;
pub mod operand;
pub mod parser;
pub mod tables;
