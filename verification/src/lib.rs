//! Shares one GNSS serial device with any number of network clients.
//!
//! The verified core is the readiness-driven reactor: the client registry,
//! the per-event dispatch decisions, and the bootstrap and address-selection
//! rules. The surrounding process (sockets, the serial port, polling) feeds
//! events in as plain values and carries the returned actions out.

pub mod cmdline_config;
pub mod config;
pub mod rs232;
pub mod server;
pub mod stream;
