//! Planning the listening endpoint.
//!
//! Setting a listener up means allocating a socket, resolving the textual
//! bind address, binding and listening; every failure there is fatal and
//! all-or-nothing.  The socket calls themselves are the unverified front
//! end's; what stands here is the decision they depend on: which addresses
//! are accepted, with which octets and port the endpoint is bound, and with
//! which error an unparseable address is refused.

use crate::addr::{dotted_quad_at, is_ipv4_text, parse_ipv4, quad_octets, IpOctets};
use vstd::prelude::*;
use vstd::string::StringSliceAdditionalSpecFns;

verus! {

/// How many pending connections the listening endpoint queues.
pub const LISTEN_BACKLOG: u32 = 10;

/// A fatal, setup-time failure of the listener.
#[derive(Debug, Clone, Copy, PartialEq, Eq, Structural)]
pub enum SetupError {
    /// The textual bind address is not a dotted quad.
    InvalidAddress,
    /// The socket could not be allocated.
    SocketCreateFailed,
    /// The socket could not be bound to the address and port.
    BindFailed,
    /// The bound socket could not start listening.
    ListenFailed,
}

/// A recoverable, loop-time failure on one connection.
#[derive(Debug, Clone, Copy, PartialEq, Eq, Structural)]
pub enum IoError {
    /// Accepting a peer failed.
    AcceptFailed,
    /// A blocking read failed.
    ReadFailed,
    /// A blocking write failed.
    WriteFailed,
}

/// The resolved bind target of the listener: four address octets and a
/// port, both still in host order.
#[derive(Debug, Clone, Copy, PartialEq, Eq, Structural)]
pub struct EndpointAddress {
    pub octets: IpOctets,
    pub port: u16,
}

/// Resolves the bind target of the listener.
///
/// Exactly the dotted-quad addresses are accepted; any other address fails
/// with `InvalidAddress`, the one setup error that is decided here rather
/// than by a socket call.
pub fn plan_endpoint(address: &str, port: u16) -> (r: Result<EndpointAddress, SetupError>)
    ensures
        (r is Ok) <==> is_ipv4_text(address.spec_bytes()),
        (r matches Err(e) ==> e == SetupError::InvalidAddress),
        (r matches Ok(ep) ==> ep.port == port && (forall|i: int, j: int, k: int|
            dotted_quad_at(address.spec_bytes(), i, j, k) ==> ep.octets == quad_octets(
                address.spec_bytes(),
                i,
                j,
                k,
            ))),
{
    match parse_ipv4(address) {
        Option::Some(octets) => Ok(EndpointAddress { octets, port }),
        Option::None => Err(SetupError::InvalidAddress),
    }
}

} // verus!
