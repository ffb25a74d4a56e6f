//! Postfix bytecode with 16-bit inline literals and a constant pool for the
//! rest, on a stack.
pub mod compiler;
pub mod op;
pub mod vm;
