//! A small-language compiler and its companion bytecode virtual machine.
//!
//! Source text is turned into an executable program through four stages —
//! parsing, symbol resolution, optional constant folding, bytecode generation —
//! and the resulting bytecode runs on a dedicated execution engine. The
//! tokenizer and all file handling live outside this library: its boundary is
//! "token stream in, executable result out".

pub mod ast;
pub mod bytecode;
pub mod codec;
pub mod codegen;
pub mod fold;
pub mod lowering;
pub mod module;
pub mod parser;
pub mod resolve;
pub mod resolved;
pub mod symbol;
pub mod token;
pub mod visit;
pub mod vm;
