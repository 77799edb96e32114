//! Discover smart-lighting bridges on a local network and turn them from
//! address-only handles into authenticated, keyed handles.
//!
//! The crate separates the pure protocol logic, which is verified, from the
//! network exchanges themselves: discovery strategies, authentication and key
//! issuance are decision functions over the data a caller fetched, and the
//! wire payloads are encoded and decoded by a verified codec.

pub mod addr;
pub mod codec;
pub mod discovery;
pub mod error;
pub mod resources;
pub mod session;
