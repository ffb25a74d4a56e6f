//! Postfix bytecode on an implicit stack: every literal is held inline.
pub mod compiler;
pub mod op;
