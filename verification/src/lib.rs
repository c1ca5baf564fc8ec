pub mod text;
pub mod names;
pub mod ast;
pub mod symbols;
pub mod format_spec;
pub mod analyzer;
pub mod codegen;
