//! Core of a small expression-oriented REPL language: the AST of literals and
//! patterns, a heap-backed runtime value model, a structural pattern matcher,
//! a compiler from literals to a symbolic instruction sequence, an execution
//! engine for that instruction vocabulary, and a session evaluator that binds
//! `let` results into a persistent name table.

pub mod ast;
pub mod compiler;
pub mod data;
pub mod display;
pub mod engine;
pub mod error;
pub mod evaler;
pub mod instr;
pub mod runtime;
pub mod numbers;
pub mod pattern_matcher;
pub mod strings;
