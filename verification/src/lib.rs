//! A verified disassembler for the 8086 MOV instruction family.
//!
//! The library decodes a buffer of raw machine-code bytes into structured
//! `Instruction` values and renders them as assembler text. Decoding and
//! rendering are specified by spec functions over byte and character
//! sequences, and the executable code is proved to match them exactly.

pub mod decode;
pub mod encoding;
pub mod input;
pub mod instr;
pub mod laws;
pub mod render;
