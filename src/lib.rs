//! Execution engine of a small dynamically typed scripting language.
//!
//! A program arrives as a sequence of [`ast::AstNode`]s. The evaluator in
//! [`interp`] runs it over an arena of lexical environments ([`scope::Scope`]),
//! with values from [`value`], operators from [`ops`], the built-in functions of
//! [`builtins`] and the type tags of [`typing`] that drive method dispatch.
//! [`semantics`] states, as relations between interpreter states, what each
//! evaluation function does; the evaluator is proved to meet them.

pub mod ast;
pub mod builtins;
pub mod error;
pub mod interp;
pub mod ops;
pub mod scope;
pub mod semantics;
pub mod text;
pub mod typing;
pub mod value;
