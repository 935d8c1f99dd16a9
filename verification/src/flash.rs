//! Emulated flash memories.

pub mod w25q32jv;
