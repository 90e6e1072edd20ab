//! Verified core of the Darwinia bridger: error values, Ethereum relay
//! header parcels with their JSON form, the relay service's affirm
//! decisions, and the message-lane arithmetic of the Pangoro bridge.
pub mod chains;
pub mod encoding;
pub mod parcel;
pub mod result;
pub mod service;
