//! Verified core of a bridge that exposes one serial device as a TCP endpoint.
//!
//! The library holds the decisions the bridge makes: the single-client
//! admission policy, the per-read decisions of the two forwarding directions,
//! the resolution of the serial device name, and the text of the port listing.
//! The surrounding process performs the actual socket and device I/O and feeds
//! each outcome to these functions as plain values.

pub mod admission;
pub mod config;
pub mod forward;
pub mod ports;
pub mod text;
