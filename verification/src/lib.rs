//! A table-driven shift-reduce parsing engine.
//!
//! Given a precomputed action/goto table for a context-free grammar and a
//! stream of typed tokens, the engine deterministically derives a parse tree,
//! invoking caller-supplied semantic actions at each reduction.

pub mod arith;
pub mod derivation;
pub mod engine;
pub mod handler;
pub mod machine;
pub mod numtext;
pub mod table;
pub mod tree;

use vstd::prelude::*;

verus! {

/// The reserved end-of-input marker symbol.
pub const END_SYMBOL: &'static str = "__$__";

/// The reserved symbol denoting an empty right-hand side; it never appears on
/// the parsing stack.
pub const EPSILON_SYMBOL: &'static str = "__EPSILON__";

/// The reserved synthetic start symbol used to bootstrap parsing and signal
/// overall acceptance.
pub const DUMMY_START_SYMBOL: &'static str = "__DUMMY_START__";

} // verus!
