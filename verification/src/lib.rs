//! A two-pass assembler for a small 16/32-bit instruction set.
//!
//! The library translates a line-oriented textual program into a byte-exact
//! machine-code image: lines are tokenized and classified, every emitting
//! line is assigned an address (pass 1), labels are collected into a symbol
//! table, and each instruction record is then resolved and bit-packed into a
//! 16-bit or 32-bit word (pass 2).  Reading the source file and writing the
//! output are left to the caller; the library works on plain byte vectors.

pub mod converter;
pub mod driver;
pub mod error;
pub mod isa;
pub mod num;
pub mod parser;
pub mod text;
