//! A minimal note-capture service model.
//!
//! Clients submit short text captures, list the ones still pending, and mark
//! individual captures as processed. The heart of the service is the data
//! lifecycle of a capture: created pending, optionally marked processed once,
//! never deleted. This crate states and verifies that lifecycle.

pub mod capture;
pub mod laws;
pub mod store;
