//! Semantic analysis and intermediate-representation generation for a small
//! statically-typed imperative language: declaration collection and module
//! resolution, structural type and function-signature interning, and lowering
//! of function bodies into a register-based intermediate representation.
//!
//! The surface syntax stage (tokenization and parsing) is an external
//! collaborator: this crate starts from a syntax tree (`ast`) and ends with an
//! intermediate-representation program (`ir::Program`).

pub mod ast;
pub mod compiler;
pub mod error;
pub mod id;
pub mod ir;
pub mod source;
pub mod span;
