//! The connections held by the proxy and the state uniquely associated with them.

use vstd::prelude::*;

verus! {

/// The identifier of a connection.
pub type ConnectionId = u64;

/// An external connection and all the state uniquely associated with it.
pub struct Connection<H> {
    pub external_connection: H,
    pub application_state: Vec<u8>,
    pub application_sockets: std::collections::HashMap<String, H>,
}

impl<H> Connection<H> {
    /// A connection with no application state and no application socket.
    pub fn new(external_connection: H) -> (r: Self)
        ensures
            r.external_connection == external_connection,
            r.application_state@ == Seq::<u8>::empty(),
            r.application_sockets@ == Map::<String, H>::empty(),
    {
        Connection {
            external_connection,
            application_state: Vec::new(),
            application_sockets: std::collections::HashMap::new(),
        }
    }
}

/// The connections, by identifier.
pub struct ConnectionMap<H> {
    next_id: ConnectionId,
    connections: std::collections::HashMap<ConnectionId, Connection<H>>,
}

impl<H> ConnectionMap<H> {
    /// The identifier the next connection will get.
    pub closed spec fn spec_next_id(&self) -> ConnectionId {
        self.next_id
    }

    /// The connections, by identifier.
    pub closed spec fn spec_connections(&self) -> Map<ConnectionId, Connection<H>> {
        self.connections@
    }

    /// The map's invariant: every identifier in use is below the next one.
    pub open spec fn wf(&self) -> bool {
        forall|id: ConnectionId| #[trigger] self.spec_connections().contains_key(id) ==> id < self.spec_next_id()
    }

    /// The identifier the next connection will get.
    pub fn next_id(&self) -> (r: ConnectionId)
        ensures
            r == self.spec_next_id(),
    {
        self.next_id
    }

    /// No connection yet; the first one gets identifier 0.
    pub fn new() -> (r: Self)
        ensures
            r.wf(),
            r.spec_next_id() == 0,
            r.spec_connections() == Map::<ConnectionId, Connection<H>>::empty(),
    {
        ConnectionMap { next_id: 0, connections: std::collections::HashMap::new() }
    }

    /// Register a new external connection and return its identifier. Identifiers are handed out
    /// in order; the last one, `u64::MAX`, is never handed out.
    pub fn register(&mut self, external_connection: H) -> (id: ConnectionId)
        requires
            old(self).wf(),
            old(self).spec_next_id() < u64::MAX,
        ensures
            final(self).wf(),
            id == old(self).spec_next_id(),
            !old(self).spec_connections().contains_key(id),
            final(self).spec_next_id() == id + 1,
            final(self).spec_connections().dom() == old(self).spec_connections().dom().insert(id),
            final(self).spec_connections()[id].external_connection == external_connection,
            final(self).spec_connections()[id].application_state@ == Seq::<u8>::empty(),
            final(self).spec_connections()[id].application_sockets@ == Map::<String, H>::empty(),
            forall|other: ConnectionId|
                #[trigger] old(self).spec_connections().contains_key(other) ==> final(self).spec_connections()[other]
                    == old(self).spec_connections()[other],
    {
        let id = self.next_id;
        self.next_id = id + 1;
        let connection = Connection::new(external_connection);
        self.connections.insert(id, connection);
        proof {
            assert(self.spec_connections().dom() =~= old(self).spec_connections().dom().insert(id));
        }
        id
    }
}

} // verus!
