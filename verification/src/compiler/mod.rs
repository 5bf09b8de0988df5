//! The back end: from a syntax tree to x86-64 assembly.

pub mod limits;
pub mod lowering;
pub mod x86;
