//! Access-control orchestration core for a physical-door automation
//! appliance: an in-memory registry of known devices, capability traits for
//! detection, authentication, actuation and re-locking, and the manager
//! that composes them into the access-control protocol.

pub mod bluetooth;
pub mod interfaces;
pub mod manager;
pub mod registry;
pub mod simple;
