//! The semantic core of a small structurally-typed language: the shared
//! tree representation ([`node`], [`ast`]), the token scanner
//! ([`lexer`]) and the parser's boundary ([`parser`]), lowering from
//! surface syntax into a scope-resolved intermediate representation
//! ([`lower`], [`ir`]), and a structural subtype checker over that
//! representation ([`subtype`]).

pub mod ast;
pub mod eval;
pub mod ir;
pub mod lexer;
pub mod lower;
pub mod node;
pub mod parser;
pub mod subtype;
