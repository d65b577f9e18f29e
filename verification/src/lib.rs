//! Front end of a compiler for a small functional language whose blocks are
//! written by indentation: a lexer that turns the offside rule into explicit
//! braces and semicolons, and a recursive-descent parser on top of it.

pub mod text;
pub mod token;
pub mod context;
pub mod scan;
pub mod layout;
pub mod lexer;
pub mod ast;
pub mod error;
pub mod sugar;
pub mod decl;
pub mod varmap;
pub mod grammar;
pub mod grammar_types;
pub mod grammar_decl;
pub mod parser;
pub mod parser_types;
pub mod parser_decl;
pub mod laws;
pub mod progress;
