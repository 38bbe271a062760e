//! Glimmer-Weave: lexer, expression parser, syntax tree, ownership and
//! lifetime checks, native code generation, ELF object writing, module
//! resolution and diagnostics for a small scripting language.

pub mod text;
pub mod source_location;
pub mod token;
pub mod ast;
pub mod debug_text;
pub mod lexer;
pub mod elf;
pub mod codegen;
pub mod codegen_rules;
pub mod bytecode;
pub mod bytecode_rules;
pub mod bytecode_compiler;
pub mod native_runtime;
pub mod error_formatter;
pub mod monomorphize;
pub mod borrow_checker;
pub mod repl;
pub mod lifetime_checker;
pub mod parser;
pub mod ast_copy;
pub mod environment;
pub mod module_resolver;
