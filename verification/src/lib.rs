//! An assembler and single-step interpreter for a subset of the RV32I
//! instruction set (with the M extension and a few single-precision
//! floating-point instructions).
//!
//! The pipeline: assembly text is parsed into a token stream, a two-pass
//! assembler resolves labels and expands pseudo-instructions into bit-exact
//! 32-bit words, and an executor decodes each word and mutates a simulated
//! register file.

pub mod env;
pub mod err;
pub mod execution;
pub mod info;
pub mod instructions;
pub mod parser;
pub mod props;
pub mod text;
