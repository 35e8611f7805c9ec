//! Syntactic front end for the Uno source language: grammars for
//! expressions, statements and function declarations, and the abstract
//! syntax tree they produce.
pub mod ast;
pub mod expr_parser;
pub mod grammar;
pub mod invariants;
pub mod serialize;
pub mod uno_parser;
