//! Evaluation core of a small, expression-oriented, dynamically-typed
//! functional language: values, single-binding environment frames held in an
//! arena, a pattern matcher, a tree-walking evaluator with memoizing thunks,
//! and a two-phase binder for mutually recursive top-level declarations.

pub mod ast;
pub mod ops;
pub mod semantics;
pub mod interp;
pub mod tokens;
pub mod laws;
