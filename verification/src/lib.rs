//! Semantic-analysis / code-generation core of an assembler for a
//! banked-memory processor family with 8/16/24-bit operand encodings.
//!
//! The crate consumes a stream of already-parsed statements (labels,
//! directives, raw data, instructions) and produces a stream of relocatable
//! code/data chunks, each with resolved-where-possible symbol references and
//! a residual list of fixups for a later linking stage.

pub mod size;
pub mod expr;
pub mod ident;
pub mod encoder;
pub mod chunk;
pub mod resolver;
pub mod compiler;
