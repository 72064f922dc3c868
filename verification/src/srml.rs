//! Support for single modules of a runtime.

pub mod litentry;
