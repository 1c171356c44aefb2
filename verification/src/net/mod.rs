//! Sockets: addresses tried in turn, and readiness that is remembered.

pub mod addrs;
pub mod listener;
pub mod udp;
