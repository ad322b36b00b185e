//! Detection of host compute-accelerator (GPU) and hardware capabilities.
//!
//! The core of the crate is the GPU detection orchestrator in [`gpu`]: it
//! consults a set of test/error-simulation switches, serves a cached result
//! when one is available, and otherwise folds the outcomes of the vendor
//! backends, tried in a fixed priority order, into a normalized capability
//! record. The surrounding application runs the external system utilities
//! and the timeouts; this crate holds every decision, every parser and
//! every record, with contracts checked by Verus.
//!
//! [`hardware`] is the simpler host-hardware collector: it reads CPU and
//! memory facts through the `sysinfo` crate and validates them against
//! system requirements.

pub mod gpu;
pub mod hardware;
pub mod hardware_service;
pub mod text;
