//! Bridged chains.
pub mod pangoro;
