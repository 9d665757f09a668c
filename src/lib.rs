//! A tamper-evident provenance registry: bindings of a prompt hash to an output
//! hash, owned by a creator, located by derived addresses, and indexed per prompt.
pub mod address;
pub mod index;
pub mod laws;
pub mod program;
pub mod registry;
pub mod state;
