//! Events sent by endpoint discovery tasks, and the endpoints they describe.

use crate::net::SocketAddress;
use vstd::prelude::*;

verus! {

/// The view of an [`EndpointEvent`].
pub enum EndpointEventView {
    Add {
        uid: Seq<char>,
        is_available: bool,
        external_port: u16,
        external_protocol: Seq<char>,
        backend_address: SocketAddress,
        backend_protocol: Seq<char>,
    },
    Delete { uid: Seq<char> },
    Suspend { uid: Seq<char> },
    Resume { uid: Seq<char> },
}

/// An event sent from an endpoint discovery task.
#[derive(Debug, PartialEq, Eq)]
pub enum EndpointEvent {
    /// An endpoint has been added.
    Add {
        /// An unique ID representing this endpoint for the sending discovery task. This field is
        /// freeform.
        uid: String,
        /// Whether this endpoint is already available to handle proxied connections.
        is_available: bool,
        /// The port that external clients connect to to reach this endpoint.
        external_port: u16,
        /// The protocol that external clients connect through to reach this endpoint.
        external_protocol: String,
        /// This endpoint's address.
        backend_address: SocketAddress,
        /// The protocol that the proxy should use to communicate with this endpoint.
        backend_protocol: String,
    },
    /// An endpoint has been deleted.
    Delete { uid: String },
    /// An endpoint still exists but is not available anymore.
    Suspend { uid: String },
    /// A previously unavailable endpoint is now available.
    Resume { uid: String },
}

impl View for EndpointEvent {
    type V = EndpointEventView;

    open spec fn view(&self) -> EndpointEventView {
        match self {
            EndpointEvent::Add {
                uid,
                is_available,
                external_port,
                external_protocol,
                backend_address,
                backend_protocol,
            } => EndpointEventView::Add {
                uid: uid@,
                is_available: *is_available,
                external_port: *external_port,
                external_protocol: external_protocol@,
                backend_address: *backend_address,
                backend_protocol: backend_protocol@,
            },
            EndpointEvent::Delete { uid } => EndpointEventView::Delete { uid: uid@ },
            EndpointEvent::Suspend { uid } => EndpointEventView::Suspend { uid: uid@ },
            EndpointEvent::Resume { uid } => EndpointEventView::Resume { uid: uid@ },
        }
    }
}

impl EndpointEvent {
    /// Create an [`EndpointEvent::Add`] event.
    pub fn add(
        uid: String,
        is_available: bool,
        external_port: u16,
        external_protocol: String,
        backend_address: SocketAddress,
        backend_protocol: String,
    ) -> (r: Self)
        ensures
            r@ == (EndpointEventView::Add {
                uid: uid@,
                is_available,
                external_port,
                external_protocol: external_protocol@,
                backend_address,
                backend_protocol: backend_protocol@,
            }),
    {
        EndpointEvent::Add {
            uid,
            is_available,
            external_port,
            external_protocol,
            backend_address,
            backend_protocol,
        }
    }

    /// Create an [`EndpointEvent::Delete`] event.
    pub fn delete(uid: String) -> (r: Self)
        ensures
            r@ == (EndpointEventView::Delete { uid: uid@ }),
    {
        EndpointEvent::Delete { uid }
    }

    /// Create an [`EndpointEvent::Suspend`] event.
    pub fn suspend(uid: String) -> (r: Self)
        ensures
            r@ == (EndpointEventView::Suspend { uid: uid@ }),
    {
        EndpointEvent::Suspend { uid }
    }

    /// Create an [`EndpointEvent::Resume`] event.
    pub fn resume(uid: String) -> (r: Self)
        ensures
            r@ == (EndpointEventView::Resume { uid: uid@ }),
    {
        EndpointEvent::Resume { uid }
    }
}

/// The view of an [`EndpointId`]: the discovery task's name, then the endpoint's uid.
pub type EndpointIdView = (Seq<char>, Seq<char>);

/// Identifies an endpoint: the discovery task that announced it and its uid there.
#[derive(Debug, PartialEq, Eq, Hash)]
pub struct EndpointId {
    pub endpoint_discovery_name: String,
    pub uid: String,
}

impl View for EndpointId {
    type V = EndpointIdView;

    open spec fn view(&self) -> EndpointIdView {
        (self.endpoint_discovery_name@, self.uid@)
    }
}

impl EndpointId {
    /// Identify the endpoint `uid` of the discovery task `endpoint_discovery_name`.
    pub fn new(endpoint_discovery_name: String, uid: String) -> (r: Self)
        ensures
            r@ == (endpoint_discovery_name@, uid@),
    {
        EndpointId { endpoint_discovery_name, uid }
    }

    /// Whether both name the same endpoint.
    pub fn same_as(&self, other: &EndpointId) -> (r: bool)
        ensures
            r == (self@ == other@),
    {
        self.endpoint_discovery_name == other.endpoint_discovery_name && self.uid == other.uid
    }

    /// A copy of this identifier.
    pub fn duplicate(&self) -> (r: EndpointId)
        ensures
            r@ == self@,
    {
        EndpointId { endpoint_discovery_name: self.endpoint_discovery_name.clone(), uid: self.uid.clone() }
    }

    /// The text `(<discovery name>, <uid>)`, as the identifier is shown in messages.
    pub fn display(&self) -> (r: String)
        ensures
            r@ == seq!['('] + self.endpoint_discovery_name@ + seq![',', ' '] + self.uid@ + seq![')'],
    {
        let mut r = String::from_str("(");
        r.append(self.endpoint_discovery_name.as_str());
        r.append(", ");
        r.append(self.uid.as_str());
        r.append(")");
        proof {
            reveal_strlit("(");
            reveal_strlit(", ");
            reveal_strlit(")");
        }
        r
    }
}

/// The view of an [`Endpoint`].
pub struct EndpointView {
    pub is_available: bool,
    pub address: SocketAddress,
    pub protocol: Seq<char>,
}

/// A backend endpoint: where it is, which protocol it speaks, and whether it takes connections.
#[derive(Debug, PartialEq, Eq)]
pub struct Endpoint {
    pub is_available: bool,
    pub address: SocketAddress,
    pub protocol: String,
}

impl View for Endpoint {
    type V = EndpointView;

    open spec fn view(&self) -> EndpointView {
        EndpointView { is_available: self.is_available, address: self.address, protocol: self.protocol@ }
    }
}

impl Endpoint {
    /// An endpoint at `address` that speaks `protocol`.
    pub fn new(is_available: bool, address: SocketAddress, protocol: String) -> (r: Self)
        ensures
            r@ == (EndpointView { is_available, address, protocol: protocol@ }),
    {
        Endpoint { is_available, address, protocol }
    }
}

} // verus!
