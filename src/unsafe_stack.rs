//! The stack machine without run-time validation: it trusts that its code
//! came from the stack compiler.
pub mod vm;
