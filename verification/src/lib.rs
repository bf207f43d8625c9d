//! The core of a small dependently typed language: from a parsed surface
//! tree to a core term and its type.
//!
//! The elaborator goes over the surface tree in two directions, finding
//! types and holding terms to types. It compares types by evaluating them
//! to values and unifying the values, which solves the metavariables that
//! stand for what the user left out; it compiles pattern matches to
//! decision trees; and it prints core terms back as surface syntax.
//!
//! Terms and values live in a bump arena and are immutable once built, so
//! each is a cheap copyable handle. Evaluation, reading back and
//! unification take fuel, and say so when it runs out. The executable
//! functions carry contracts over the mathematical models of their
//! arguments: `Term` for terms, `Layout` for documents, `Seq` for
//! environments.

pub mod arena;
pub mod diagnostic;
pub mod elab;
pub mod env;
pub mod matching;
pub mod normal;
pub mod outcome;
pub mod plicity;
pub mod prim;
pub mod prim_type;
pub mod printer;
pub mod quote;
pub mod semantics;
pub mod source;
pub mod surface;
pub mod symbol;
pub mod synth;
pub mod syntax;
pub mod text;
pub mod unelab;
pub mod unify;
pub mod zonk;
