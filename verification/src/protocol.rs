//! Protocols the proxy can communicate in, and a registry of them by name.

use crate::text::same_text;
use vstd::prelude::*;

pub mod proxy;

verus! {

/// Capabilities for a single [`Protocol`].
#[derive(Clone, Copy, Debug, PartialEq, Eq)]
pub struct ProtocolCapabilities {
    /// Whether a client is available for this protocol.
    pub client: bool,
    /// Whether a server is available for this protocol.
    pub server: bool,
    /// Whether this protocol's implementation supports connection disassembly and reassembly.
    pub disasm: bool,
    /// Whether this protocol has meaningful message boundaries. If false, this protocol should
    /// never return or accept more than one message per direction per connection.
    pub message_boundaries: bool,
    /// The maximum number of multiplexed channels in a single connection for this protocol; at
    /// least 1.
    pub multiplexing: u32,
    /// Whether this protocol is capable of sending and receiving sockets.
    pub sockets: bool,
}

impl ProtocolCapabilities {
    /// The capabilities are well formed: a connection carries at least one channel.
    pub open spec fn wf(&self) -> bool {
        self.multiplexing >= 1
    }
}

impl Default for ProtocolCapabilities {
    /// No client, no server, no disassembly, no message boundaries, no sockets, and a single
    /// channel per connection.
    fn default() -> (r: Self)
        ensures
            r == (ProtocolCapabilities {
                client: false,
                server: false,
                disasm: false,
                message_boundaries: false,
                multiplexing: 1,
                sockets: false,
            }),
    {
        ProtocolCapabilities {
            client: false,
            server: false,
            disasm: false,
            message_boundaries: false,
            multiplexing: 1,
            sockets: false,
        }
    }
}

/// Description of a single network protocol.
pub trait Protocol {
    /// The name, as the contracts see it.
    spec fn spec_name(&self) -> Seq<char>;

    /// Return the lowercase name of the protocol. A version number must be included if there are
    /// multiple incompatible versions (e.g. SSH1 vs SSH2).
    fn name(&self) -> (r: &String)
        ensures
            r@ == self.spec_name(),
    ;

    /// Get the capabilities for this protocol. Unless a protocol says otherwise, these are the
    /// default capabilities.
    fn capabilities(&self) -> (r: ProtocolCapabilities)
        ensures
            r.wf(),
        default_ensures
            r == default_capabilities(),
    {
        ProtocolCapabilities::default()
    }
}

/// The default capabilities: no client, server, disassembly, message boundaries or sockets, and a
/// single channel per connection.
pub open spec fn default_capabilities() -> ProtocolCapabilities {
    ProtocolCapabilities {
        client: false,
        server: false,
        disasm: false,
        message_boundaries: false,
        multiplexing: 1,
        sockets: false,
    }
}

/// An error of the protocol registry.
#[derive(Debug, PartialEq, Eq)]
pub enum Error {
    /// A protocol of this name is already registered.
    DuplicateRegistration { name: String },
}

impl Error {
    /// The text of this error.
    pub open spec fn message_text(&self) -> Seq<char> {
        match self {
            Error::DuplicateRegistration { name } => "Protocol '"@ + name@ + "' is already registered"@,
        }
    }

    /// The text of this error, as the program reports it.
    pub fn message(&self) -> (r: String)
        ensures
            r@ == self.message_text(),
    {
        match self {
            Error::DuplicateRegistration { name } => {
                crate::text::surround("Protocol '", name.as_str(), "' is already registered")
            },
        }
    }
}

/// The names of `protocols`, in order.
pub open spec fn protocol_names<P: Protocol>(protocols: Seq<P>) -> Seq<Seq<char>> {
    protocols.map_values(|p: P| p.spec_name())
}

/// The protocol named `name` among `protocols`, where there is one.
pub open spec fn protocol_named<P: Protocol>(protocols: Seq<P>, name: Seq<char>) -> Option<P> {
    if exists|i: int| 0 <= i < protocols.len() && (#[trigger] protocols[i]).spec_name() == name {
        Some(protocols[choose|i: int| 0 <= i < protocols.len() && (#[trigger] protocols[i]).spec_name() == name])
    } else {
        None
    }
}

/// No two protocols have the same name.
pub open spec fn names_unique<P: Protocol>(protocols: Seq<P>) -> bool {
    forall|i: int, j: int|
        #![trigger protocols[i], protocols[j]]
        0 <= i < j < protocols.len() ==> protocols[i].spec_name() != protocols[j].spec_name()
}

/// What one registration makes of `protocols`: `protocol` is added unless its name is taken.
pub open spec fn registry_step<P: Protocol>(protocols: Seq<P>, protocol: P) -> Seq<P> {
    if protocol_named(protocols, protocol.spec_name()) is None {
        protocols.push(protocol)
    } else {
        protocols
    }
}

/// What registering each of `attempts` in turn makes of `protocols`.
pub open spec fn registry_after<P: Protocol>(protocols: Seq<P>, attempts: Seq<P>) -> Seq<P>
    decreases attempts.len(),
{
    if attempts.len() == 0 {
        protocols
    } else {
        registry_step(registry_after(protocols, attempts.drop_last()), attempts.last())
    }
}

/// A simple registry for all protocols the proxy can use to communicate.
pub struct ProtocolRegistry<P: Protocol> {
    protocols: Vec<P>,
}

impl<P: Protocol> View for ProtocolRegistry<P> {
    type V = Seq<P>;

    closed spec fn view(&self) -> Seq<P> {
        self.protocols@
    }
}

impl<P: Protocol> ProtocolRegistry<P> {
    /// The registry's invariant: names are unique.
    pub open spec fn wf(&self) -> bool {
        names_unique(self@)
    }

    /// An empty registry.
    pub fn new() -> (r: Self)
        ensures
            r.wf(),
            r@ == Seq::<P>::empty(),
    {
        ProtocolRegistry { protocols: Vec::new() }
    }

    /// Register `protocol` under its name. A name is registered once: a second protocol of the
    /// same name is refused.
    pub fn register(&mut self, protocol: P) -> (r: Result<(), Error>)
        requires
            old(self).wf(),
        ensures
            final(self).wf(),
            final(self)@ == registry_step(old(self)@, protocol),
            match r {
                Ok(()) => protocol_named(old(self)@, protocol.spec_name()) is None
                    && final(self)@ == old(self)@.push(protocol),
                Err(Error::DuplicateRegistration { name }) => protocol_named(old(self)@, protocol.spec_name()) is Some
                    && name@ == protocol.spec_name() && final(self)@ == old(self)@,
            },
    {
        let ghost before = self@;
        let name = protocol.name();
        let mut i: usize = 0;
        while i < self.protocols.len()
            invariant
                i <= self.protocols@.len(),
                self@ == before,
                names_unique(before),
                name@ == protocol.spec_name(),
                forall|k: int| 0 <= k < i ==> (#[trigger] before[k]).spec_name() != name@,
            decreases self.protocols@.len() - i,
        {
            let other = self.protocols[i].name();
            if same_text(other.as_str(), name.as_str()) {
                proof {
                    assert(before[i as int].spec_name() == name@);
                }
                return Err(Error::DuplicateRegistration { name: name.clone() });
            }
            i += 1;
        }
        let ghost spec_name = protocol.spec_name();
        self.protocols.push(protocol);
        proof {
            assert(!exists|k: int| 0 <= k < before.len() && (#[trigger] before[k]).spec_name() == spec_name);
            let after = self@;
            assert forall|a: int, b: int| #![trigger after[a], after[b]] 0 <= a < b < after.len() implies after[a].spec_name() != after[b].spec_name() by {
                if b == before.len() {
                    assert(after[a] == before[a]);
                } else {
                    assert(after[a] == before[a] && after[b] == before[b]);
                }
            }
        }
        Ok(())
    }

    /// The protocol registered under `name`.
    pub fn get(&self, name: &String) -> (r: Option<&P>)
        requires
            self.wf(),
        ensures
            match r {
                Some(p) => protocol_named(self@, name@) == Some(*p),
                None => protocol_named(self@, name@) is None,
            },
    {
        let mut i: usize = 0;
        while i < self.protocols.len()
            invariant
                i <= self.protocols@.len(),
                self.wf(),
                forall|k: int| 0 <= k < i ==> (#[trigger] self@[k]).spec_name() != name@,
            decreases self.protocols@.len() - i,
        {
            if same_text(self.protocols[i].name().as_str(), name.as_str()) {
                proof {
                    let j = choose|j: int| 0 <= j < self@.len() && (#[trigger] self@[j]).spec_name() == name@;
                    if j < i {
                        assert(self@[j].spec_name() != self@[i as int].spec_name());
                    } else if i < j {
                        assert(self@[i as int].spec_name() != self@[j].spec_name());
                    }
                }
                return Some(&self.protocols[i]);
            }
            i += 1;
        }
        None
    }
}

/// One of the protocols this library describes.
pub enum AnyProtocol {
    Http(crate::http::HttpProtocol),
    Endpoint(crate::protocol::proxy::endpoint::EndpointProtocol),
}

impl Protocol for AnyProtocol {
    open spec fn spec_name(&self) -> Seq<char> {
        match self {
            AnyProtocol::Http(p) => p.spec_name(),
            AnyProtocol::Endpoint(p) => p.spec_name(),
        }
    }

    fn name(&self) -> (r: &String) {
        match self {
            AnyProtocol::Http(p) => p.name(),
            AnyProtocol::Endpoint(p) => p.name(),
        }
    }

    fn capabilities(&self) -> (r: ProtocolCapabilities)
        ensures
            r == match self {
                AnyProtocol::Http(_) => crate::http::http_capabilities(),
                AnyProtocol::Endpoint(p) => p.capabilities_spec(),
            },
    {
        match self {
            AnyProtocol::Http(p) => p.capabilities(),
            AnyProtocol::Endpoint(p) => p.capabilities(),
        }
    }
}

/// After a protocol is registered, looking its name up gives it back.
pub proof fn law_register_then_get<P: Protocol>(protocols: Seq<P>, protocol: P)
    requires
        names_unique(protocols),
        protocol_named(protocols, protocol.spec_name()) is None,
    ensures
        protocol_named(protocols.push(protocol), protocol.spec_name()) == Some(protocol),
{
    let after = protocols.push(protocol);
    let n = protocols.len() as int;
    assert(after[n].spec_name() == protocol.spec_name());
    let j = choose|j: int| 0 <= j < after.len() && (#[trigger] after[j]).spec_name() == protocol.spec_name();
    if j < n {
        assert(after[j] == protocols[j]);
    }
}

/// Adding a protocol under a free name keeps the registry's names unique, and every other name
/// finds what it found before.
proof fn lemma_push_free_name<P: Protocol>(protocols: Seq<P>, protocol: P, name: Seq<char>)
    requires
        names_unique(protocols),
        protocol_named(protocols, protocol.spec_name()) is None,
    ensures
        names_unique(protocols.push(protocol)),
        name != protocol.spec_name() ==> protocol_named(protocols.push(protocol), name)
            == protocol_named(protocols, name),
{
    let after = protocols.push(protocol);
    let n = protocols.len() as int;
    assert forall|a: int, b: int| #![trigger after[a], after[b]] 0 <= a < b < after.len() implies after[a].spec_name() != after[b].spec_name() by {
        if b == n {
            assert(after[a] == protocols[a]);
            assert(!(protocols[a].spec_name() == protocol.spec_name()));
        } else {
            assert(after[a] == protocols[a] && after[b] == protocols[b]);
        }
    }
    if name == protocol.spec_name() {
    } else if exists|i: int| 0 <= i < protocols.len() && (#[trigger] protocols[i]).spec_name() == name {
        let k = choose|i: int| 0 <= i < protocols.len() && (#[trigger] protocols[i]).spec_name() == name;
        assert(after[k] == protocols[k]);
        let j = choose|i: int| 0 <= i < after.len() && (#[trigger] after[i]).spec_name() == name;
        if j < k {
            assert(after[j].spec_name() != after[k].spec_name());
        } else if k < j {
            assert(after[k].spec_name() != after[j].spec_name());
        }
    } else {
        assert forall|i: int| 0 <= i < after.len() implies (#[trigger] after[i]).spec_name() != name by {
            if i < n {
                assert(after[i] == protocols[i]);
            }
        }
    }
}

/// Registrations keep the names unique.
proof fn lemma_registry_after_unique<P: Protocol>(protocols: Seq<P>, attempts: Seq<P>)
    requires
        names_unique(protocols),
    ensures
        names_unique(registry_after(protocols, attempts)),
    decreases attempts.len(),
{
    if attempts.len() > 0 {
        let before = registry_after(protocols, attempts.drop_last());
        lemma_registry_after_unique(protocols, attempts.drop_last());
        let p = attempts.last();
        if protocol_named(before, p.spec_name()) is None {
            lemma_push_free_name(before, p, p.spec_name());
        }
    }
}

/// Once a protocol is registered under a name, later registrations, however many and whether
/// they succeed or not, do not change what that name finds.
pub proof fn law_lookup_survives_later_registrations<P: Protocol>(
    protocols: Seq<P>,
    attempts: Seq<P>,
    name: Seq<char>,
)
    requires
        names_unique(protocols),
        protocol_named(protocols, name) is Some,
    ensures
        protocol_named(registry_after(protocols, attempts), name) == protocol_named(protocols, name),
    decreases attempts.len(),
{
    if attempts.len() > 0 {
        let before = registry_after(protocols, attempts.drop_last());
        law_lookup_survives_later_registrations(protocols, attempts.drop_last(), name);
        lemma_registry_after_unique(protocols, attempts.drop_last());
        let p = attempts.last();
        if protocol_named(before, p.spec_name()) is None {
            lemma_push_free_name(before, p, name);
        }
    }
}

/// A name that none of the registered protocols carries finds nothing; in particular an empty
/// registry finds nothing.
pub proof fn law_unregistered_name_finds_nothing<P: Protocol>(attempts: Seq<P>, name: Seq<char>)
    requires
        forall|i: int| 0 <= i < attempts.len() ==> (#[trigger] attempts[i]).spec_name() != name,
    ensures
        protocol_named(registry_after(Seq::<P>::empty(), attempts), name) is None,
    decreases attempts.len(),
{
    if attempts.len() > 0 {
        let rest = attempts.drop_last();
        assert forall|i: int| 0 <= i < rest.len() implies (#[trigger] rest[i]).spec_name() != name by {
            assert(rest[i] == attempts[i]);
        }
        law_unregistered_name_finds_nothing(rest, name);
        let before = registry_after(Seq::<P>::empty(), rest);
        lemma_registry_after_unique(Seq::<P>::empty(), rest);
        let p = attempts.last();
        if protocol_named(before, p.spec_name()) is None {
            lemma_push_free_name(before, p, name);
        }
    }
}

} // verus!
