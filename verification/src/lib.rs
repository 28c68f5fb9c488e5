//! Front end for a small Haskell-like functional language: an abstract
//! syntax model, a precedence-correct expression resolver, an AST builder
//! over rule-tagged parse trees, and a first semantic pass that binds
//! declarations to definitions and checks arity.

pub mod ast;
pub mod parse_tree;
pub mod ast_analyse;
pub mod ast_build;
pub mod precedence;
