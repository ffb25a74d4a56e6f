//! Stack code whose compiler also computes the exact stack depth it needs,
//! run on a buffer of exactly that size.
pub mod compiler;
pub mod vm;
