//! Decoder for the MOV family of 8086 machine instructions.
//!
//! The library turns a raw byte stream into assembly text, one line per
//! instruction: it classifies the lead byte, pulls the d/w/mod/reg/rm
//! bit-fields out, resolves register and memory operands (consuming
//! displacement bytes as needed), reads sign-extended immediates, and
//! renders each instruction in canonical two-operand syntax.

pub mod decode;
pub mod opcode;
pub mod operand;
pub mod stream;
pub mod text;
