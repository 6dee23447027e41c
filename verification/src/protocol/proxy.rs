//! The proxy protocol.

use vstd::prelude::*;

pub mod endpoint;

verus! {

/// The current version of the proxy protocol.
pub const PROXY_PROTOCOL_VERSION: u64 = 0;

/// An error of the proxy protocol.
#[derive(Debug, PartialEq, Eq)]
pub enum Error {
    /// A message came for an unknown channel.
    UnknownChannelId { channel_id: u64, message_name: &'static str },
    /// A message of another kind was expected.
    WrongMessage { expected: Vec<&'static str>, received: &'static str },
    /// The other side speaks another version of the protocol.
    WrongVersion { expected: u64, received: u64 },
}

/// A server of the proxy protocol over a message channel.
pub struct ProxyProtocolServer<C> {
    message_channel: C,
}

impl<C> ProxyProtocolServer<C> {
    /// A server that talks over `message_channel`.
    pub fn new(message_channel: C) -> (r: Self)
        ensures
            r.message_channel() == message_channel,
    {
        ProxyProtocolServer { message_channel }
    }

    /// The message channel, as the contracts see it.
    pub closed spec fn message_channel(&self) -> C {
        self.message_channel
    }
}

} // verus!
