//! Session lifecycle and transport rules of a network latency-measurement
//! harness, stated as contracts over plain values.
//!
//! The library decides; the program around it performs the I/O. Every event
//! loop of the harness is a set of step functions here: the caller waits for
//! the first ready event, hands it to the matching step function and carries
//! out the action that comes back.

pub mod addr;
pub mod conn;
pub mod conn_state;
pub mod error;
pub mod server;
pub mod session;
pub mod side;
pub mod socket_kind;
pub mod transport;
pub mod wire;
