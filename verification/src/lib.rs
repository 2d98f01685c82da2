//! A small, directly executed programming language: source text is tokenized,
//! parsed into a tree, and evaluated by walking that tree.
//!
//! The pipeline has three stages.  The tokenizer turns source text into a
//! sequence of [`parser::token::Token`]s; the recursive-descent
//! [`parser::Parser`] turns that sequence into one root block expression; and
//! the tree-walking [`interpreter::evaluator::Evaluator`] runs the tree
//! against a stack of lexical scopes and a global function table.
//!
//! Each stage carries a contract that relates it to a mathematical model: a
//! specification-level tokenizer over a sequence of characters, a
//! specification-level grammar over a sequence of tokens, and a fuelled
//! big-step semantics over the abstract syntax tree.

pub mod interpreter;
pub mod parser;
pub mod utils;
