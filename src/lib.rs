//! A small stack machine and the assembler for its image format.
//!
//! `assembler` turns source text into tokens and tokens into an image;
//! `vm` loads an image and runs it against two ports from `ports`.

pub mod assembler;
pub mod image;
pub mod opcode;
pub mod ports;
pub mod round_trip;
pub mod text;
pub mod vm;

pub use opcode::OpCode;
