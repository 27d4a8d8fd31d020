//! The two phases after parsing: the type checker and the code generator.

pub mod codegen;

pub mod typecheck;
