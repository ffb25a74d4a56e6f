//! Compilation of integer arithmetic expressions to bytecode, and the virtual
//! machines that run it: a postfix stream on an unbounded stack, a postfix
//! stream with a constant pool and an exactly sized stack, and a register
//! machine whose register file is sized by a register allocator.
pub mod agreement;
pub mod alloc_exact_stack;
pub mod compiler;
pub mod error;
pub mod expr;
pub mod folder;
pub mod lexer;
pub mod machine;
pub mod parser;
pub mod rpn;
pub mod span;
pub mod register;
pub mod stack;
mod text;
pub mod token;
pub mod unsafe_register;
pub mod unsafe_stack;
pub mod vm;
