//! The HTTP protocol.

use crate::protocol::{Protocol, ProtocolCapabilities};
use vstd::prelude::*;
use vstd::string::*;

verus! {

/// The HTTP protocol, named `http`.
pub struct HttpProtocol {
    name: String,
}

impl HttpProtocol {
    /// The HTTP protocol.
    pub fn new() -> (r: Self)
        ensures
            r.spec_name() == "http"@,
    {
        HttpProtocol { name: String::from_str("http") }
    }
}

impl Protocol for HttpProtocol {
    closed spec fn spec_name(&self) -> Seq<char> {
        self.name@
    }

    fn name(&self) -> (r: &String) {
        &self.name
    }

    /// The default capabilities: no client, server, disassembly, boundaries or sockets, and a
    /// single channel.
    fn capabilities(&self) -> (r: ProtocolCapabilities)
        ensures
            r == http_capabilities(),
    {
        ProtocolCapabilities::default()
    }
}

/// The capabilities of the HTTP protocol.
pub open spec fn http_capabilities() -> ProtocolCapabilities {
    ProtocolCapabilities {
        client: false,
        server: false,
        disasm: false,
        message_boundaries: false,
        multiplexing: 1,
        sockets: false,
    }
}

/// A server of the HTTP protocol.
#[derive(Debug, Default, PartialEq, Eq)]
pub struct HttpServer;

impl HttpServer {
    /// A new server.
    pub fn new() -> (r: Self)
        ensures
            r == HttpServer,
    {
        HttpServer
    }
}

} // verus!
