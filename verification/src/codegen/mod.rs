//! The output side: the text buffer that the assembly is written to.

pub mod writer;
