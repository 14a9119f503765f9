//! A minimal, verified model of a single-connection database wire listener.
//!
//! The crate holds the pure logic of the listener: parsing a textual IPv4
//! bind address, decoding the first two frames of the wire protocol (the
//! startup handshake and the simple-query message), and the sequential
//! run-loop state machine that decides, for every socket event, what happens
//! next.  The sockets themselves are driven by an unverified front end that
//! feeds plain byte buffers and events into this crate.

pub mod addr;
pub mod endpoint;
pub mod frame;
pub mod runloop;
