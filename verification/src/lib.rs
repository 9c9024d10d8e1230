//! A TCP port-forwarding relay core.
//!
//! For each configured route (a listen address paired with a destination
//! address) the relay accepts inbound connections, dials the destination,
//! and pipes bytes in both directions until either side closes or fails.
//! This crate holds the verified core: the per-connection relay state
//! machine, the per-route listener state machine with its connection
//! counter, the engine that supervises one listener per route, and the
//! parser for the route list. The sockets themselves are driven by an
//! unverified shell around this crate, which feeds events in and carries
//! the returned actions out.

pub mod config;
pub mod counter;
pub mod engine;
pub mod listener;
pub mod relay;
pub mod route;
