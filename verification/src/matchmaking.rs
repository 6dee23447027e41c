//! Matching external clients with internal servers: which protocol clients and servers are
//! registered, and what a port event asks of them.

use crate::backend::{PortEvent, PortEventView};
use crate::text::{same_text, strings_view};
use vstd::prelude::*;

verus! {

/// What the matchmaker must do for a port event.
#[derive(Debug, PartialEq, Eq)]
pub enum MatchmakerAction {
    /// Make the server of `protocol` listen on `port`.
    Listen { port: u16, protocol: String },
    /// Make the server of `protocol`, which listens on `port`, stop listening there.
    Mute { port: u16, protocol: String },
    /// Nothing: the port to close is not open.
    Nothing,
}

/// The view of a [`MatchmakerAction`].
pub enum MatchmakerActionView {
    Listen { port: u16, protocol: Seq<char> },
    Mute { port: u16, protocol: Seq<char> },
    Nothing,
}

impl View for MatchmakerAction {
    type V = MatchmakerActionView;

    open spec fn view(&self) -> MatchmakerActionView {
        match self {
            MatchmakerAction::Listen { port, protocol } => MatchmakerActionView::Listen { port: *port, protocol: protocol@ },
            MatchmakerAction::Mute { port, protocol } => MatchmakerActionView::Mute { port: *port, protocol: protocol@ },
            MatchmakerAction::Nothing => MatchmakerActionView::Nothing,
        }
    }
}

/// An error of the matchmaker.
#[derive(Debug, PartialEq, Eq)]
pub enum MatchmakingError {
    /// A client for this protocol is already registered.
    ClientAlreadyRegistered { protocol: String },
    /// A server for this protocol is already registered.
    ServerAlreadyRegistered { protocol: String },
    /// No server is registered for this protocol.
    UnknownProtocol { protocol: String },
}

impl MatchmakingError {
    /// The text of this error.
    pub open spec fn message_text(&self) -> Seq<char> {
        match self {
            MatchmakingError::ClientAlreadyRegistered { protocol } => "a client for the "@ + protocol@
                + " protocol is already registered"@,
            MatchmakingError::ServerAlreadyRegistered { protocol } => "a server for the "@ + protocol@
                + " protocol is already registered"@,
            MatchmakingError::UnknownProtocol { protocol } => "unknown protocol: "@ + protocol@,
        }
    }

    /// The text of this error, as the program reports it.
    pub fn message(&self) -> (r: String)
        ensures
            r@ == self.message_text(),
    {
        match self {
            MatchmakingError::ClientAlreadyRegistered { protocol } => {
                crate::text::surround("a client for the ", protocol.as_str(), " protocol is already registered")
            },
            MatchmakingError::ServerAlreadyRegistered { protocol } => {
                crate::text::surround("a server for the ", protocol.as_str(), " protocol is already registered")
            },
            MatchmakingError::UnknownProtocol { protocol } => {
                proof {
                    reveal_strlit("");
                }
                crate::text::surround("unknown protocol: ", protocol.as_str(), "")
            },
        }
    }
}

/// The view of a [`Matchmaker`].
pub struct MatchmakerView {
    pub clients: Seq<Seq<char>>,
    pub servers: Seq<Seq<char>>,
    pub open_ports: Seq<(u16, Seq<char>)>,
}

/// Which protocols have a client and a server, and which ports are open.
pub struct Matchmaker {
    protocol_clients: Vec<String>,
    protocol_servers: Vec<String>,
    open_ports: Vec<(u16, String)>,
}

impl View for Matchmaker {
    type V = MatchmakerView;

    closed spec fn view(&self) -> MatchmakerView {
        MatchmakerView {
            clients: strings_view(self.protocol_clients@),
            servers: strings_view(self.protocol_servers@),
            open_ports: open_ports_view(self.open_ports@),
        }
    }
}

/// No name occurs twice.
pub open spec fn distinct_names(names: Seq<Seq<char>>) -> bool {
    forall|i: int, j: int| #![trigger names[i], names[j]] 0 <= i < j < names.len() ==> names[i] != names[j]
}

/// Whether `name` is among `names`, and add it at the end if it is not.
fn insert_name(names: &mut Vec<String>, name: &String) -> (added: bool)
    requires
        distinct_names(old(names)@.map_values(|n: String| n@)),
    ensures
        added == !old(names)@.map_values(|n: String| n@).contains(name@),
        final(names)@.map_values(|n: String| n@) == if added {
            old(names)@.map_values(|n: String| n@).push(name@)
        } else {
            old(names)@.map_values(|n: String| n@)
        },
        distinct_names(final(names)@.map_values(|n: String| n@)),
{
    let ghost before = strings_view(names@);
    let mut i: usize = 0;
    while i < names.len()
        invariant
            i <= names@.len(),
            before == strings_view(names@),
            distinct_names(before),
            forall|k: int| 0 <= k < i ==> before[k] != name@,
        decreases names@.len() - i,
    {
        if same_text(names[i].as_str(), name.as_str()) {
            proof {
                assert(before[i as int] == name@);
            }
            return false;
        }
        i += 1;
    }
    names.push(name.clone());
    proof {
        let after = strings_view(names@);
        assert(after =~= before.push(name@));
        assert(!before.contains(name@));
        assert forall|a: int, b: int| #![trigger after[a], after[b]] 0 <= a < b < after.len() implies after[a] != after[b] by {
            if b == before.len() {
                assert(after[a] == before[a]);
            }
        }
    }
    true
}

/// Whether `name` is among `names`.
fn has_name(names: &Vec<String>, name: &String) -> (r: bool)
    ensures
        r == strings_view(names@).contains(name@),
{
    let ghost all = strings_view(names@);
    let mut i: usize = 0;
    while i < names.len()
        invariant
            i <= names@.len(),
            all == strings_view(names@),
            forall|k: int| 0 <= k < i ==> all[k] != name@,
        decreases names@.len() - i,
    {
        if same_text(names[i].as_str(), name.as_str()) {
            proof {
                assert(all[i as int] == name@);
            }
            return true;
        }
        i += 1;
    }
    false
}

/// The views of open ports with their protocols.
pub open spec fn open_ports_view(open_ports: Seq<(u16, String)>) -> Seq<(u16, Seq<char>)> {
    open_ports.map_values(|o: (u16, String)| (o.0, o.1@))
}

/// The position of `port` among the open ports, or -1.
pub open spec fn open_port_index(open_ports: Seq<(u16, Seq<char>)>, port: u16) -> int {
    if exists|i: int| 0 <= i < open_ports.len() && (#[trigger] open_ports[i]).0 == port {
        choose|i: int| 0 <= i < open_ports.len() && (#[trigger] open_ports[i]).0 == port
    } else {
        -1
    }
}

/// What a port event asks of the matchmaker, and the open ports after it. Opening a port asks
/// the server of its protocol to listen there, which needs a server for that protocol, and
/// records the port as open; closing an open port mutes the server listening there and forgets
/// the port; closing a port that is not open asks for nothing.
pub open spec fn port_event_action(
    servers: Seq<Seq<char>>,
    open_ports: Seq<(u16, Seq<char>)>,
    event: PortEventView,
) -> (Result<MatchmakerActionView, Seq<char>>, Seq<(u16, Seq<char>)>) {
    match event {
        PortEventView::Open { port, protocol } => if servers.contains(protocol) {
            (Ok(MatchmakerActionView::Listen { port, protocol }), open_ports.push((port, protocol)))
        } else {
            (Err(protocol), open_ports)
        },
        PortEventView::Close { port } => {
            let i = open_port_index(open_ports, port);
            if i >= 0 {
                (Ok(MatchmakerActionView::Mute { port, protocol: open_ports[i].1 }), open_ports.remove(i))
            } else {
                (Ok(MatchmakerActionView::Nothing), open_ports)
            }
        },
    }
}

/// A port may be opened only once: opening an open port for a protocol that has a server is left
/// out.
pub open spec fn port_event_allowed(servers: Seq<Seq<char>>, open_ports: Seq<(u16, Seq<char>)>, event: PortEventView) -> bool {
    match event {
        PortEventView::Open { port, protocol } => servers.contains(protocol) ==> open_port_index(open_ports, port) < 0,
        PortEventView::Close { .. } => true,
    }
}

/// No port is open twice.
pub open spec fn ports_distinct(open_ports: Seq<(u16, Seq<char>)>) -> bool {
    forall|i: int, j: int| #![trigger open_ports[i], open_ports[j]] 0 <= i < j < open_ports.len() ==> open_ports[i].0 != open_ports[j].0
}

impl Matchmaker {
    /// The matchmaker's invariant: no protocol has two clients or two servers, no port is open
    /// twice.
    pub open spec fn wf(&self) -> bool {
        &&& distinct_names(self@.clients)
        &&& distinct_names(self@.servers)
        &&& ports_distinct(self@.open_ports)
    }

    /// A matchmaker with nothing registered and no open port.
    pub fn new() -> (r: Self)
        ensures
            r.wf(),
            r@.clients == Seq::<Seq<char>>::empty(),
            r@.servers == Seq::<Seq<char>>::empty(),
            r@.open_ports == Seq::<(u16, Seq<char>)>::empty(),
    {
        let r = Matchmaker { protocol_clients: Vec::new(), protocol_servers: Vec::new(), open_ports: Vec::new() };
        proof {
            assert(r@.open_ports =~= Seq::<(u16, Seq<char>)>::empty());
            assert(r@.clients =~= Seq::<Seq<char>>::empty());
            assert(r@.servers =~= Seq::<Seq<char>>::empty());
        }
        r
    }

    /// Register the client for `protocol`; one client per protocol.
    pub fn register_client(&mut self, protocol: String) -> (r: Result<(), MatchmakingError>)
        requires
            old(self).wf(),
        ensures
            final(self).wf(),
            final(self)@.servers == old(self)@.servers,
            final(self)@.open_ports == old(self)@.open_ports,
            match r {
                Ok(()) => !old(self)@.clients.contains(protocol@) && final(self)@.clients == old(self)@.clients.push(protocol@),
                Err(e) => old(self)@.clients.contains(protocol@) && final(self)@.clients == old(self)@.clients
                    && e == MatchmakingError::ClientAlreadyRegistered { protocol },
            },
    {
        let added = insert_name(&mut self.protocol_clients, &protocol);
        proof {
            assert(self@.open_ports == old(self)@.open_ports);
            assert(self@.clients == strings_view(self.protocol_clients@));
            assert(self@.servers == strings_view(self.protocol_servers@));
        }
        if added {
            Ok(())
        } else {
            Err(MatchmakingError::ClientAlreadyRegistered { protocol })
        }
    }

    /// Register the server for `protocol`; one server per protocol.
    pub fn register_server(&mut self, protocol: String) -> (r: Result<(), MatchmakingError>)
        requires
            old(self).wf(),
        ensures
            final(self).wf(),
            final(self)@.clients == old(self)@.clients,
            final(self)@.open_ports == old(self)@.open_ports,
            match r {
                Ok(()) => !old(self)@.servers.contains(protocol@) && final(self)@.servers == old(self)@.servers.push(protocol@),
                Err(e) => old(self)@.servers.contains(protocol@) && final(self)@.servers == old(self)@.servers
                    && e == MatchmakingError::ServerAlreadyRegistered { protocol },
            },
    {
        let added = insert_name(&mut self.protocol_servers, &protocol);
        proof {
            assert(self@.open_ports == old(self)@.open_ports);
            assert(self@.clients == strings_view(self.protocol_clients@));
            assert(self@.servers == strings_view(self.protocol_servers@));
        }
        if added {
            Ok(())
        } else {
            Err(MatchmakingError::ServerAlreadyRegistered { protocol })
        }
    }

    /// Whether a server is registered for `protocol`.
    pub fn has_server(&self, protocol: &String) -> (r: bool)
        ensures
            r == self@.servers.contains(protocol@),
    {
        has_name(&self.protocol_servers, protocol)
    }

    /// Find the open port `port`.
    fn find_open_port(&self, port: u16) -> (r: Option<usize>)
        requires
            self.wf(),
        ensures
            match r {
                Some(i) => i < self.open_ports@.len() && open_port_index(self@.open_ports, port) == i,
                None => open_port_index(self@.open_ports, port) == -1,
            },
    {
        let ghost open = self@.open_ports;
        let mut i: usize = 0;
        while i < self.open_ports.len()
            invariant
                i <= self.open_ports@.len(),
                open == open_ports_view(self.open_ports@),
                ports_distinct(open),
                forall|k: int| 0 <= k < i ==> (#[trigger] open[k]).0 != port,
            decreases self.open_ports@.len() - i,
        {
            if self.open_ports[i].0 == port {
                proof {
                    assert(open[i as int].0 == port);
                    let j = open_port_index(open, port);
                    assert(0 <= j < open.len() && open[j].0 == port);
                    if j < i {
                        assert(open[j].0 != open[i as int].0);
                    } else if i < j {
                        assert(open[i as int].0 != open[j].0);
                    }
                }
                return Some(i);
            }
            assert(open[i as int].0 != port);
            i += 1;
        }
        proof {
            assert(!exists|j: int| 0 <= j < open.len() && (#[trigger] open[j]).0 == port);
        }
        None
    }

    /// Whether `port` is open.
    pub fn is_port_open(&self, port: u16) -> (r: bool)
        requires
            self.wf(),
        ensures
            r == (open_port_index(self@.open_ports, port) >= 0),
    {
        self.find_open_port(port).is_some()
    }

    /// What the port event asks for: listening with the registered server of the port's protocol,
    /// refused if there is none; or muting the server listening on an open port.
    pub fn handle_port_event(&mut self, event: &PortEvent) -> (r: Result<MatchmakerAction, MatchmakingError>)
        requires
            old(self).wf(),
            port_event_allowed(old(self)@.servers, old(self)@.open_ports, event@),
        ensures
            final(self).wf(),
            final(self)@.clients == old(self)@.clients,
            final(self)@.servers == old(self)@.servers,
            ({
                let (outcome, open_ports) = port_event_action(old(self)@.servers, old(self)@.open_ports, event@);
                &&& final(self)@.open_ports == open_ports
                &&& match r {
                    Ok(action) => outcome == Ok::<MatchmakerActionView, Seq<char>>(action@),
                    Err(MatchmakingError::UnknownProtocol { protocol }) => outcome == Err::<MatchmakerActionView, Seq<char>>(protocol@),
                    Err(_) => false,
                }
            }),
    {
        let ghost before = self@.open_ports;
        match event {
            PortEvent::Open { port, protocol } => {
                if has_name(&self.protocol_servers, protocol) {
                    proof {
                        assert(open_port_index(before, *port) < 0);
                        assert(!exists|j: int| 0 <= j < before.len() && (#[trigger] before[j]).0 == *port);
                    }
                    self.open_ports.push((*port, protocol.clone()));
                    proof {
                        let after = self@.open_ports;
                        assert(after =~= before.push((*port, protocol@)));
                        assert forall|a: int, b: int| #![trigger after[a], after[b]] 0 <= a < b < after.len() implies after[a].0 != after[b].0 by {
                            if b == before.len() {
                                assert(after[a] == before[a]);
                            } else {
                                assert(after[a] == before[a] && after[b] == before[b]);
                            }
                        }
                        assert(self@.clients == old(self)@.clients);
                        assert(self@.servers == old(self)@.servers);
                    }
                    Ok(MatchmakerAction::Listen { port: *port, protocol: protocol.clone() })
                } else {
                    Err(MatchmakingError::UnknownProtocol { protocol: protocol.clone() })
                }
            },
            PortEvent::Close { port } => {
                match self.find_open_port(*port) {
                    Some(i) => {
                        let (_, protocol) = self.open_ports.remove(i);
                        proof {
                            assert(open_ports_view(self.open_ports@) =~= before.remove(i as int));
                            before.remove_ensures(i as int);
                            let after = self@.open_ports;
                            assert forall|a: int, b: int| #![trigger after[a], after[b]] 0 <= a < b < after.len() implies after[a].0 != after[b].0 by {
                                let a2 = if a < i { a } else { a + 1 };
                                let b2 = if b < i { b } else { b + 1 };
                                assert(after[a] == before[a2] && after[b] == before[b2]);
                            }
                            assert(protocol@ == before[i as int].1);
                            assert(self@.clients == old(self)@.clients);
                            assert(self@.servers == old(self)@.servers);
                        }
                        Ok(MatchmakerAction::Mute { port: *port, protocol })
                    },
                    None => Ok(MatchmakerAction::Nothing),
                }
            },
        }
    }
}

/// A port opened for a protocol with a server is muted by the next close of that port, on the
/// server of that protocol, which leaves the open ports as they were before it was opened; a
/// second close of the same port asks for nothing.
pub proof fn law_open_then_close_mutes_once(
    servers: Seq<Seq<char>>,
    open_ports: Seq<(u16, Seq<char>)>,
    port: u16,
    protocol: Seq<char>,
)
    requires
        ports_distinct(open_ports),
        servers.contains(protocol),
        port_event_allowed(servers, open_ports, PortEventView::Open { port, protocol }),
    ensures
        ({
            let (opened, after_open) = port_event_action(servers, open_ports, PortEventView::Open { port, protocol });
            let (closed, after_close) = port_event_action(servers, after_open, PortEventView::Close { port });
            let (closed_again, after_second) = port_event_action(servers, after_close, PortEventView::Close { port });
            &&& opened == Ok::<MatchmakerActionView, Seq<char>>(MatchmakerActionView::Listen { port, protocol })
            &&& closed == Ok::<MatchmakerActionView, Seq<char>>(MatchmakerActionView::Mute { port, protocol })
            &&& after_close == open_ports
            &&& closed_again == Ok::<MatchmakerActionView, Seq<char>>(MatchmakerActionView::Nothing)
            &&& after_second == open_ports
        }),
{
    let after_open = open_ports.push((port, protocol));
    let n = open_ports.len() as int;
    assert(!exists|j: int| 0 <= j < open_ports.len() && (#[trigger] open_ports[j]).0 == port);
    assert(after_open[n].0 == port);
    let i = open_port_index(after_open, port);
    assert(0 <= i < after_open.len() && after_open[i].0 == port);
    if i < n {
        assert(after_open[i] == open_ports[i]);
    }
    assert(i == n);
    assert(after_open.remove(n) =~= open_ports);
}

/// Closing an open port mutes the protocol recorded for that very port, and forgets that port
/// alone: every other open port stays open, with its protocol, in its order.
pub proof fn law_close_mutes_the_recorded_protocol(
    servers: Seq<Seq<char>>,
    open_ports: Seq<(u16, Seq<char>)>,
    i: int,
)
    requires
        ports_distinct(open_ports),
        0 <= i < open_ports.len(),
    ensures
        ({
            let port = open_ports[i].0;
            let (outcome, after) = port_event_action(servers, open_ports, PortEventView::Close { port });
            &&& outcome == Ok::<MatchmakerActionView, Seq<char>>(
                MatchmakerActionView::Mute { port, protocol: open_ports[i].1 },
            )
            &&& after.len() == open_ports.len() - 1
            &&& forall|j: int| 0 <= j < i ==> #[trigger] after[j] == open_ports[j]
            &&& forall|j: int| i < j < open_ports.len() ==> after[j - 1] == #[trigger] open_ports[j]
            &&& forall|j: int| 0 <= j < after.len() ==> (#[trigger] after[j]).0 != port
        }),
{
    let port = open_ports[i].0;
    let k = open_port_index(open_ports, port);
    assert(0 <= k < open_ports.len() && open_ports[k].0 == port);
    if k < i {
        assert(open_ports[k].0 != open_ports[i].0);
    } else if i < k {
        assert(open_ports[i].0 != open_ports[k].0);
    }
    let after = open_ports.remove(i);
    assert forall|j: int| 0 <= j < after.len() implies (#[trigger] after[j]).0 != port by {
        if j < i {
            assert(open_ports[j].0 != open_ports[i].0);
        } else {
            assert(after[j] == open_ports[j + 1]);
            assert(open_ports[i].0 != open_ports[j + 1].0);
        }
    }
}

/// The index of the next connection on a port: the counter goes up by one, wrapping round.
pub fn next_connection_index(index: usize) -> (r: usize)
    ensures
        r == if index == usize::MAX {
            0
        } else {
            (index + 1) as usize
        },
{
    if index == usize::MAX {
        0
    } else {
        index + 1
    }
}

} // verus!
