//! Intermediate representation of a lifted binary.
//!
//! The crate defines the typed program model that a disassembler/lifter hands
//! to later analyses — term identifiers, instructions, basic blocks,
//! subroutines and the surrounding program and project containers — together
//! with a normalization pass that rewrites compiler-inserted stack-alignment
//! idioms (`sp := sp & mask`) into an equivalent subtraction.

pub mod alignment_substitution;
pub mod bitvector;
pub mod diagnostics;
pub mod expression;
pub mod term;

pub use bitvector::{Bitvector, ByteSize};
pub use diagnostics::{LogLevel, LogMessage};
pub use expression::{BinOpType, CastOpType, Expression, UnOpType, Variable};
pub use term::{Arg, Blk, Def, ExternSymbol, Jmp, Program, Project, Sub, Term, Tid};
