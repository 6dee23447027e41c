//! Network addresses as plain values.

use vstd::prelude::*;

verus! {

/// An IP address, version 4 (four octets) or version 6 (eight segments).
#[derive(Clone, Copy, Debug, PartialEq, Eq, Hash)]
pub enum IpAddress {
    V4([u8; 4]),
    V6([u16; 8]),
}

/// An IP address together with a port.
#[derive(Clone, Copy, Debug, PartialEq, Eq, Hash)]
pub struct SocketAddress {
    pub ip: IpAddress,
    pub port: u16,
}

impl SocketAddress {
    /// Build the address of `port` on `ip`.
    pub fn new(ip: IpAddress, port: u16) -> (r: SocketAddress)
        ensures
            r == (SocketAddress { ip, port }),
    {
        SocketAddress { ip, port }
    }
}

} // verus!
