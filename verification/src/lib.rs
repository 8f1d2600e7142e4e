//! The Armour policy language: labels, types, literals, policies and the
//! pieces of the language front end and interpreter.

pub mod text;
pub mod strmap;
pub mod regexes;
pub mod labels;
pub mod lexer;
pub mod types;
pub mod builtins;
pub mod headers;
pub mod policies;
pub mod launch;
pub mod graph;
pub mod web;
pub mod pretty;
pub mod parser;
pub mod grammar;
pub mod parsing;
pub mod expressions;
pub mod literals;
pub mod interpret;
pub mod evaluate;
pub mod meta;
pub mod checker;
pub mod decls;
pub mod program;
pub mod proxy;
pub mod netvals;
