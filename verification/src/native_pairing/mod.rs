//! Pairing of native clients.

pub mod store;
