//! A core evaluator for a small dependently-typed language in the style of
//! elementary affine logic: a lambda calculus with explicit boxes, duplication,
//! self-dependent functions, a single universe, and erased arguments.
//!
//! Terms use de Bruijn indices.  The crate checks stratification (the affine
//! discipline that guarantees strong normalization), type-checks
//! bidirectionally, and evaluates either directly on the term tree or by
//! compiling to an interaction net and rewriting the graph.

pub mod analysis;
pub mod convert;
pub mod net;
pub mod term;

pub use term::{Index, Term, TermView};
