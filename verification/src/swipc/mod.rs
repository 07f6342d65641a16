//! A front end for (a variant of) SwIPC interface definition files: a parser
//! into a data model, a type checker, the byte layout of structures, and the
//! generator of Rust client code for the definitions.

pub mod text;
pub mod diagnostics;
pub mod model;
pub mod typecheck;
pub mod lexer;
pub mod parser;
pub mod layout;
pub mod sources;
pub mod naming;
pub mod grammar;
pub mod wire_format;
pub mod codegen;
pub mod message_struct;
pub mod request_init;
pub mod command_body;
pub mod raw_data;
pub mod interface_gen;
pub mod module_files;
pub mod wire_laws;
