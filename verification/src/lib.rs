//! A verified tree-walking evaluator for a small expression language:
//! let bindings, first-class closures, conditionals, binary operators over
//! integers, strings and booleans, two-element tuples with projection, and a
//! print effect collected as output lines.
//!
//! The runtime semantics is defined once as a specification-level interpreter
//! (`eval::eval_step`), and the executable evaluator is proved to return
//! exactly what that definition says, for every abstract syntax tree, every
//! environment and every recursion budget.

pub mod ast;
pub mod value;
pub mod errors;
pub mod render;
pub mod ops;
pub mod memo;
pub mod eval;
pub mod laws;
