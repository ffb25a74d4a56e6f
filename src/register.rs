//! The register machine with every register and pool access validated.
pub mod vm;
