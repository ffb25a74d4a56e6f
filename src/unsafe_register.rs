//! Three-address bytecode on a register file whose size the register
//! allocator computes, and a machine that trusts that size.
pub mod compiler;
pub mod op;
pub mod vm;
