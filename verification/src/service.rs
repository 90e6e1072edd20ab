//! Bridger services.
pub mod relay;
