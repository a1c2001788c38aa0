//! Host side of the bootloader self-test protocol.
//!
//! The bootloader under test talks to its host by writing a discriminant to a
//! reserved heap slot. This crate recognises those writes, decodes their
//! parameters into typed hook events, tracks one run's verdict and sequences
//! the runs of a batch.

pub mod error;
pub mod hook;
pub mod memory;
pub mod orchestrator;
pub mod test_count_tracer;
pub mod text;
pub mod tracer;
pub mod word;
