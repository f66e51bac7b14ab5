pub mod ast;
pub mod builtins;
pub mod compiler;
pub mod debug;
pub mod error;
pub mod interpreter;
pub mod lexer;
pub mod object;
pub mod parser;
pub mod parser_model;
pub mod repl;
pub mod text;
pub mod token;
pub mod vm;
