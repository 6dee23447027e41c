//! Management of proxied services.
//!
//! [`ServiceManager`] collates the [`EndpointEvent`]s sent by endpoint discovery tasks into the
//! services that the proxy should serve, one per external port, and decides which
//! [`PortEvent`]s the listener of port events must receive. It also selects an available
//! endpoint for each new external connection.

use crate::backend::endpoint::{
    Endpoint, EndpointEvent, EndpointEventView, EndpointId, EndpointIdView, EndpointView,
};
use crate::net::SocketAddress;
use vstd::prelude::*;

pub mod endpoint;
pub mod laws;

verus! {

/// The view of a [`PortEvent`].
pub enum PortEventView {
    Open { port: u16, protocol: Seq<char> },
    Close { port: u16 },
}

/// A notification that the proxy should listen on or close a specified port.
#[derive(Debug, PartialEq, Eq)]
pub enum PortEvent {
    /// Listen on the given port and with a server of the given protocol.
    Open { port: u16, protocol: String },
    /// Close a port.
    Close { port: u16 },
}

impl View for PortEvent {
    type V = PortEventView;

    open spec fn view(&self) -> PortEventView {
        match self {
            PortEvent::Open { port, protocol } => PortEventView::Open { port: *port, protocol: protocol@ },
            PortEvent::Close { port } => PortEventView::Close { port: *port },
        }
    }
}

/// The views of a sequence of port events.
pub open spec fn port_events_view(events: Seq<PortEvent>) -> Seq<PortEventView> {
    events.map_values(|e: PortEvent| e@)
}

/// The view of a [`Service`].
pub struct ServiceView {
    pub port: u16,
    pub protocol: Seq<char>,
    pub endpoints: Seq<(EndpointIdView, EndpointView)>,
}

/// A service proxied on one external port, with its endpoints in the order they were added.
#[derive(Debug, PartialEq, Eq)]
pub struct Service {
    pub port: u16,
    pub protocol: String,
    pub endpoints: Vec<(EndpointId, Endpoint)>,
}

/// The views of a sequence of endpoints with their identifiers.
pub open spec fn endpoints_view(endpoints: Seq<(EndpointId, Endpoint)>) -> Seq<(EndpointIdView, EndpointView)> {
    endpoints.map_values(|e: (EndpointId, Endpoint)| (e.0@, e.1@))
}

impl View for Service {
    type V = ServiceView;

    open spec fn view(&self) -> ServiceView {
        ServiceView { port: self.port, protocol: self.protocol@, endpoints: endpoints_view(self.endpoints@) }
    }
}

/// The views of a sequence of services.
pub open spec fn services_view(services: Seq<Service>) -> Seq<ServiceView> {
    services.map_values(|s: Service| s@)
}

impl Service {
    /// A service on `port` for external clients of `protocol`, served by `endpoints`.
    pub fn new(port: u16, protocol: String, endpoints: Vec<(EndpointId, Endpoint)>) -> (r: Self)
        ensures
            r@ == (ServiceView { port, protocol: protocol@, endpoints: endpoints_view(endpoints@) }),
    {
        Service { port, protocol, endpoints }
    }
}

// ---------------------------------------------------------------------------------------------
// The model: services as sequences of views, and what each event does to them.
// ---------------------------------------------------------------------------------------------

/// The position of the endpoint `id` among `endpoints`, or -1.
pub open spec fn id_index(endpoints: Seq<(EndpointIdView, EndpointView)>, id: EndpointIdView) -> int {
    if exists|j: int| 0 <= j < endpoints.len() && (#[trigger] endpoints[j]).0 == id {
        choose|j: int| 0 <= j < endpoints.len() && (#[trigger] endpoints[j]).0 == id
    } else {
        -1
    }
}

/// The position of the service on `port` among `services`, or -1.
pub open spec fn port_index(services: Seq<ServiceView>, port: u16) -> int {
    if exists|j: int| 0 <= j < services.len() && (#[trigger] services[j]).port == port {
        choose|j: int| 0 <= j < services.len() && (#[trigger] services[j]).port == port
    } else {
        -1
    }
}

/// No identifier occurs twice among `endpoints`.
pub open spec fn ids_distinct(endpoints: Seq<(EndpointIdView, EndpointView)>) -> bool {
    forall|i: int, j: int|
        #![trigger endpoints[i], endpoints[j]]
        0 <= i < j < endpoints.len() ==> endpoints[i].0 != endpoints[j].0
}

/// A served service has at least one endpoint, and no endpoint twice.
pub open spec fn service_wf(s: ServiceView) -> bool {
    &&& s.endpoints.len() > 0
    &&& ids_distinct(s.endpoints)
}

/// The services are well formed: one service per port, each well formed.
pub open spec fn services_wf(services: Seq<ServiceView>) -> bool {
    &&& forall|i: int, j: int|
        #![trigger services[i], services[j]]
        0 <= i < j < services.len() ==> services[i].port != services[j].port
    &&& forall|i: int| 0 <= i < services.len() ==> service_wf(#[trigger] services[i])
}

/// No name occurs twice.
pub open spec fn names_distinct(names: Seq<Seq<char>>) -> bool {
    forall|i: int, j: int| #![trigger names[i], names[j]] 0 <= i < j < names.len() ==> names[i] != names[j]
}

/// The services after an endpoint `(id, endpoint)` is added for external `port` and `protocol`,
/// and the port events that this sends.
pub open spec fn after_add(
    services: Seq<ServiceView>,
    id: EndpointIdView,
    endpoint: EndpointView,
    port: u16,
    protocol: Seq<char>,
) -> (Seq<ServiceView>, Seq<PortEventView>) {
    let p = port_index(services, port);
    if p < 0 {
        (
            services.push(ServiceView { port, protocol, endpoints: seq![(id, endpoint)] }),
            seq![PortEventView::Open { port, protocol }],
        )
    } else {
        let s = services[p];
        let q = id_index(s.endpoints, id);
        let endpoints = if q < 0 {
            s.endpoints.push((id, endpoint))
        } else {
            s.endpoints.update(q, (id, endpoint))
        };
        (services.update(p, ServiceView { endpoints, ..s }), seq![])
    }
}

/// `endpoints` without the endpoint `id`.
pub open spec fn without_id(endpoints: Seq<(EndpointIdView, EndpointView)>, id: EndpointIdView) -> Seq<(EndpointIdView, EndpointView)> {
    let q = id_index(endpoints, id);
    if q < 0 {
        endpoints
    } else {
        endpoints.remove(q)
    }
}

/// The services after the endpoint `id` is deleted, and the ports closed because their last
/// endpoint went, in the order of the services.
pub open spec fn after_delete(services: Seq<ServiceView>, id: EndpointIdView) -> (Seq<ServiceView>, Seq<PortEventView>)
    decreases services.len(),
{
    if services.len() == 0 {
        (seq![], seq![])
    } else {
        let (kept, closed) = after_delete(services.drop_last(), id);
        let last = services.last();
        let endpoints = without_id(last.endpoints, id);
        if endpoints.len() == 0 {
            (kept, closed.push(PortEventView::Close { port: last.port }))
        } else {
            (kept.push(ServiceView { endpoints, ..last }), closed)
        }
    }
}

/// The service `s` with the endpoint `id`, where it has it, marked available or not.
pub open spec fn with_availability(s: ServiceView, id: EndpointIdView, available: bool) -> ServiceView {
    let q = id_index(s.endpoints, id);
    if q < 0 {
        s
    } else {
        ServiceView {
            endpoints: s.endpoints.update(q, (id, EndpointView { is_available: available, ..s.endpoints[q].1 })),
            ..s
        }
    }
}

/// The services after the endpoint `id` is marked available or not in every service.
pub open spec fn after_set_availability(services: Seq<ServiceView>, id: EndpointIdView, available: bool) -> Seq<ServiceView> {
    services.map_values(|s: ServiceView| with_availability(s, id, available))
}

/// What an event from the discovery task `from` does: the new services and the port events sent.
pub open spec fn after_event(services: Seq<ServiceView>, from: Seq<char>, event: EndpointEventView) -> (Seq<ServiceView>, Seq<PortEventView>) {
    match event {
        EndpointEventView::Add {
            uid,
            is_available,
            external_port,
            external_protocol,
            backend_address,
            backend_protocol,
        } => after_add(
            services,
            (from, uid),
            EndpointView { is_available, address: backend_address, protocol: backend_protocol },
            external_port,
            external_protocol,
        ),
        EndpointEventView::Delete { uid } => after_delete(services, (from, uid)),
        EndpointEventView::Suspend { uid } => (after_set_availability(services, (from, uid), false), seq![]),
        EndpointEventView::Resume { uid } => (after_set_availability(services, (from, uid), true), seq![]),
    }
}

/// The position reached `k` steps after `start`, going round `n` positions.
pub open spec fn cyclic_position(start: int, k: int, n: int) -> int {
    if start + k < n {
        start + k
    } else {
        start + k - n
    }
}

/// `endpoints[position]` is the first available endpoint on the round of `endpoints` that starts
/// at `start`.
pub open spec fn first_available_from(endpoints: Seq<(EndpointIdView, EndpointView)>, start: int, position: int) -> bool {
    exists|k: int|
        0 <= k < endpoints.len() && position == cyclic_position(start, k, endpoints.len() as int)
            && endpoints[position].1.is_available && forall|k2: int|
            0 <= k2 < k ==> !(#[trigger] endpoints[cyclic_position(start, k2, endpoints.len() as int)]).1.is_available
}

/// Some endpoint among `endpoints` is available.
pub open spec fn has_available(endpoints: Seq<(EndpointIdView, EndpointView)>) -> bool {
    exists|j: int| 0 <= j < endpoints.len() && (#[trigger] endpoints[j]).1.is_available
}

/// The view of a [`ServiceManager`].
pub struct ServiceManagerView {
    pub names: Seq<Seq<char>>,
    pub services: Seq<ServiceView>,
}

/// An error of the [`ServiceManager`].
#[derive(Debug, PartialEq, Eq)]
pub enum ServiceManagerError {
    /// An endpoint discovery task of this name is already registered.
    DiscoveryAlreadyRegistered { name: String },
}

impl ServiceManagerError {
    /// The text of this error.
    pub open spec fn message_text(&self) -> Seq<char> {
        match self {
            ServiceManagerError::DiscoveryAlreadyRegistered { name } => "the discovery service "@ + name@
                + " is already registered"@,
        }
    }

    /// The text of this error, as the program reports it.
    pub fn message(&self) -> (r: String)
        ensures
            r@ == self.message_text(),
    {
        match self {
            ServiceManagerError::DiscoveryAlreadyRegistered { name } => {
                crate::text::surround("the discovery service ", name.as_str(), " is already registered")
            },
        }
    }
}

/// Manages information about proxied services. Endpoint discovery tasks are registered by name
/// with [`ServiceManager::register_endpoint_discovery`] and their events applied with
/// [`ServiceManager::process_event`].
pub struct ServiceManager {
    registered_endpoint_discovery_names: Vec<String>,
    services: Vec<Service>,
}

impl View for ServiceManager {
    type V = ServiceManagerView;

    closed spec fn view(&self) -> ServiceManagerView {
        ServiceManagerView {
            names: self.registered_endpoint_discovery_names@.map_values(|n: String| n@),
            services: services_view(self.services@),
        }
    }
}

impl ServiceManager {
    /// The manager's invariant: registered names are distinct and the services well formed.
    pub open spec fn wf(&self) -> bool {
        &&& names_distinct(self@.names)
        &&& services_wf(self@.services)
    }

    /// Create an empty [`ServiceManager`].
    pub fn new() -> (r: Self)
        ensures
            r.wf(),
            r@.names == Seq::<Seq<char>>::empty(),
            r@.services == Seq::<ServiceView>::empty(),
    {
        let r = ServiceManager { registered_endpoint_discovery_names: Vec::new(), services: Vec::new() };
        proof {
            assert(r@.names =~= Seq::<Seq<char>>::empty());
            assert(r@.services =~= Seq::<ServiceView>::empty());
        }
        r
    }
}


/// Where `endpoints[q]` has the identifier `id` and identifiers are distinct, `id` is at `q`.
pub(crate) proof fn lemma_id_index_found(endpoints: Seq<(EndpointIdView, EndpointView)>, id: EndpointIdView, q: int)
    requires
        ids_distinct(endpoints),
        0 <= q < endpoints.len(),
        endpoints[q].0 == id,
    ensures
        id_index(endpoints, id) == q,
{
    let j = id_index(endpoints, id);
    assert(0 <= j < endpoints.len() && endpoints[j].0 == id);
    if j < q {
        assert(endpoints[j].0 != endpoints[q].0);
    } else if q < j {
        assert(endpoints[q].0 != endpoints[j].0);
    }
}

/// Where ports are distinct and `services[p]` is on `port`, the service on `port` is at `p`.
proof fn lemma_port_index_found(services: Seq<ServiceView>, port: u16, p: int)
    requires
        services_wf(services),
        0 <= p < services.len(),
        services[p].port == port,
    ensures
        port_index(services, port) == p,
{
    let j = port_index(services, port);
    assert(0 <= j < services.len() && services[j].port == port);
    if j < p {
        assert(services[j].port != services[p].port);
    } else if p < j {
        assert(services[p].port != services[j].port);
    }
}

/// Adding an endpoint keeps the services well formed.
pub(crate) proof fn lemma_after_add_wf(
    services: Seq<ServiceView>,
    id: EndpointIdView,
    endpoint: EndpointView,
    port: u16,
    protocol: Seq<char>,
)
    requires
        services_wf(services),
    ensures
        services_wf(after_add(services, id, endpoint, port, protocol).0),
{
    let p = port_index(services, port);
    let r = after_add(services, id, endpoint, port, protocol).0;
    if p < 0 {
        assert forall|i: int, j: int| #![trigger r[i], r[j]] 0 <= i < j < r.len() implies r[i].port != r[j].port by {
            if j == services.len() {
                assert(r[i] == services[i]);
                assert(!(0 <= i < services.len() && services[i].port == port));
            } else {
                assert(r[i] == services[i] && r[j] == services[j]);
            }
        }
        assert forall|i: int| 0 <= i < r.len() implies service_wf(#[trigger] r[i]) by {
            if i < services.len() {
                assert(r[i] == services[i]);
            }
        }
    } else {
        let s = services[p];
        assert(service_wf(s));
        let q = id_index(s.endpoints, id);
        let endpoints = if q < 0 { s.endpoints.push((id, endpoint)) } else { s.endpoints.update(q, (id, endpoint)) };
        assert(ids_distinct(endpoints)) by {
            assert forall|a: int, b: int| #![trigger endpoints[a], endpoints[b]] 0 <= a < b < endpoints.len() implies endpoints[a].0 != endpoints[b].0 by {
                if q < 0 {
                    if b == s.endpoints.len() {
                        assert(endpoints[a] == s.endpoints[a]);
                        assert(!(0 <= a < s.endpoints.len() && s.endpoints[a].0 == id));
                    } else {
                        assert(endpoints[a] == s.endpoints[a] && endpoints[b] == s.endpoints[b]);
                    }
                } else {
                    assert(s.endpoints[q].0 == id);
                    assert(endpoints[a].0 == s.endpoints[a].0);
                    assert(endpoints[b].0 == s.endpoints[b].0);
                }
            }
        }
        assert forall|i: int, j: int| #![trigger r[i], r[j]] 0 <= i < j < r.len() implies r[i].port != r[j].port by {
            assert(r[i].port == services[i].port && r[j].port == services[j].port);
        }
        assert forall|i: int| 0 <= i < r.len() implies service_wf(#[trigger] r[i]) by {
            if i != p {
                assert(r[i] == services[i]);
            }
        }
    }
}

/// `without_id` keeps identifiers distinct and removes at most one endpoint.
pub(crate) proof fn lemma_without_id(endpoints: Seq<(EndpointIdView, EndpointView)>, id: EndpointIdView)
    requires
        ids_distinct(endpoints),
    ensures
        ids_distinct(without_id(endpoints, id)),
        forall|k: int| 0 <= k < without_id(endpoints, id).len() ==> (#[trigger] without_id(endpoints, id)[k]).0 != id,
{
    let q = id_index(endpoints, id);
    let r = without_id(endpoints, id);
    if q >= 0 {
        endpoints.remove_ensures(q);
        assert forall|a: int, b: int| #![trigger r[a], r[b]] 0 <= a < b < r.len() implies r[a].0 != r[b].0 by {
            let a2 = if a < q { a } else { a + 1 };
            let b2 = if b < q { b } else { b + 1 };
            assert(r[a] == endpoints[a2] && r[b] == endpoints[b2]);
        }
        assert forall|k: int| 0 <= k < r.len() implies (#[trigger] r[k]).0 != id by {
            let k2 = if k < q { k } else { k + 1 };
            assert(r[k] == endpoints[k2]);
            assert(endpoints[q].0 == id);
            if k2 < q {
                assert(endpoints[k2].0 != endpoints[q].0);
            } else {
                assert(endpoints[q].0 != endpoints[k2].0);
            }
        }
    } else {
        assert forall|k: int| 0 <= k < r.len() implies (#[trigger] r[k]).0 != id by {
            assert(!(0 <= k < endpoints.len() && endpoints[k].0 == id));
        }
    }
}

/// Deleting an endpoint keeps the services well formed; every kept service comes from a service
/// on the same port, which had the same protocol.
pub(crate) proof fn lemma_after_delete_wf(services: Seq<ServiceView>, id: EndpointIdView)
    requires
        services_wf(services),
    ensures
        services_wf(after_delete(services, id).0),
        forall|k: int| 0 <= k < after_delete(services, id).0.len() ==> exists|i: int|
            0 <= i < services.len() && (#[trigger] services[i]).port == (#[trigger] after_delete(services, id).0[k]).port,
    decreases services.len(),
{
    if services.len() > 0 {
        let rest = services.drop_last();
        assert(services_wf(rest)) by {
            assert forall|i: int, j: int| #![trigger rest[i], rest[j]] 0 <= i < j < rest.len() implies rest[i].port != rest[j].port by {
                assert(rest[i] == services[i] && rest[j] == services[j]);
            }
            assert forall|i: int| 0 <= i < rest.len() implies service_wf(#[trigger] rest[i]) by {
                assert(rest[i] == services[i]);
            }
        }
        lemma_after_delete_wf(rest, id);
        let kept = after_delete(rest, id).0;
        let last = services.last();
        assert(service_wf(services[services.len() - 1]));
        lemma_without_id(last.endpoints, id);
        let endpoints = without_id(last.endpoints, id);
        let r = after_delete(services, id).0;
        if endpoints.len() > 0 {
            assert(r == kept.push(ServiceView { endpoints, ..last }));
            assert forall|i: int, j: int| #![trigger r[i], r[j]] 0 <= i < j < r.len() implies r[i].port != r[j].port by {
                if j == kept.len() {
                    assert(r[i] == kept[i]);
                    let w = choose|w: int| 0 <= w < rest.len() && (#[trigger] rest[w]).port == kept[i].port;
                    assert(services[w] == rest[w]);
                    assert(services[w].port != services[services.len() - 1].port);
                } else {
                    assert(r[i] == kept[i] && r[j] == kept[j]);
                }
            }
            assert forall|k: int| 0 <= k < r.len() implies exists|i: int|
                0 <= i < services.len() && (#[trigger] services[i]).port == (#[trigger] r[k]).port by {
                if k == kept.len() {
                    assert(services[services.len() - 1].port == r[k].port);
                } else {
                    assert(r[k] == kept[k]);
                    let w = choose|w: int| 0 <= w < rest.len() && (#[trigger] rest[w]).port == kept[k].port;
                    assert(services[w] == rest[w]);
                }
            }
            assert forall|i: int| 0 <= i < r.len() implies service_wf(#[trigger] r[i]) by {
                if i < kept.len() {
                    assert(r[i] == kept[i]);
                }
            }
        } else {
            assert(r == kept);
            assert forall|k: int| 0 <= k < r.len() implies exists|i: int|
                0 <= i < services.len() && (#[trigger] services[i]).port == (#[trigger] r[k]).port by {
                let w = choose|w: int| 0 <= w < rest.len() && (#[trigger] rest[w]).port == kept[k].port;
                assert(services[w] == rest[w]);
            }
        }
    }
}

/// Changing an endpoint's availability keeps the services well formed.
pub(crate) proof fn lemma_after_set_availability_wf(services: Seq<ServiceView>, id: EndpointIdView, available: bool)
    requires
        services_wf(services),
    ensures
        services_wf(after_set_availability(services, id, available)),
{
    let r = after_set_availability(services, id, available);
    assert forall|i: int| 0 <= i < r.len() implies #[trigger] r[i].port == services[i].port && r[i].endpoints.len() == services[i].endpoints.len()
        && forall|k: int| 0 <= k < r[i].endpoints.len() ==> (#[trigger] r[i].endpoints[k]).0 == services[i].endpoints[k].0 by {
        assert(r[i] == with_availability(services[i], id, available));
        let q = id_index(services[i].endpoints, id);
        if q >= 0 {
            assert(services[i].endpoints[q].0 == id);
        }
    }
    assert forall|i: int, j: int| #![trigger r[i], r[j]] 0 <= i < j < r.len() implies r[i].port != r[j].port by {
        assert(services[i].port != services[j].port);
    }
    assert forall|i: int| 0 <= i < r.len() implies service_wf(#[trigger] r[i]) by {
        assert(service_wf(services[i]));
        let e = r[i].endpoints;
        assert forall|a: int, b: int| #![trigger e[a], e[b]] 0 <= a < b < e.len() implies e[a].0 != e[b].0 by {
            assert(e[a].0 == services[i].endpoints[a].0);
            assert(e[b].0 == services[i].endpoints[b].0);
        }
    }
}

/// Every event keeps the services well formed: one service per port, each with at least one
/// endpoint and no endpoint twice.
pub proof fn law_events_keep_services_well_formed(services: Seq<ServiceView>, from: Seq<char>, event: EndpointEventView)
    requires
        services_wf(services),
    ensures
        services_wf(after_event(services, from, event).0),
{
    match event {
        EndpointEventView::Add {
            uid,
            is_available,
            external_port,
            external_protocol,
            backend_address,
            backend_protocol,
        } => lemma_after_add_wf(
            services,
            (from, uid),
            EndpointView { is_available, address: backend_address, protocol: backend_protocol },
            external_port,
            external_protocol,
        ),
        EndpointEventView::Delete { uid } => lemma_after_delete_wf(services, (from, uid)),
        EndpointEventView::Suspend { uid } => lemma_after_set_availability_wf(services, (from, uid), false),
        EndpointEventView::Resume { uid } => lemma_after_set_availability_wf(services, (from, uid), true),
    }
}

/// Find the endpoint `id` among `endpoints`.
fn find_endpoint(endpoints: &Vec<(EndpointId, Endpoint)>, id: &EndpointId) -> (r: Option<usize>)
    requires
        ids_distinct(endpoints_view(endpoints@)),
    ensures
        match r {
            Some(q) => q < endpoints@.len() && id_index(endpoints_view(endpoints@), id@) == q,
            None => id_index(endpoints_view(endpoints@), id@) == -1,
        },
{
    let ghost view = endpoints_view(endpoints@);
    let mut q: usize = 0;
    while q < endpoints.len()
        invariant
            q <= endpoints@.len(),
            view == endpoints_view(endpoints@),
            ids_distinct(view),
            forall|k: int| 0 <= k < q ==> (#[trigger] view[k]).0 != id@,
        decreases endpoints@.len() - q,
    {
        if endpoints[q].0.same_as(id) {
            proof {
                assert(view[q as int].0 == id@);
                lemma_id_index_found(view, id@, q as int);
            }
            return Some(q);
        }
        assert(view[q as int].0 != id@);
        q += 1;
    }
    proof {
        assert(!exists|j: int| 0 <= j < view.len() && (#[trigger] view[j]).0 == id@);
    }
    None
}

impl ServiceManager {
    /// Find the service on `port`.
    fn find_service(&self, port: u16) -> (r: Option<usize>)
        requires
            self.wf(),
        ensures
            match r {
                Some(p) => p < self.services@.len() && p < self@.services.len() && port_index(self@.services, port) == p,
                None => port_index(self@.services, port) == -1,
            },
    {
        let ghost view = self@.services;
        let mut p: usize = 0;
        while p < self.services.len()
            invariant
                p <= self.services@.len(),
                view == services_view(self.services@),
                services_wf(view),
                forall|k: int| 0 <= k < p ==> (#[trigger] view[k]).port != port,
            decreases self.services@.len() - p,
        {
            if self.services[p].port == port {
                proof {
                    assert(view[p as int].port == port);
                    lemma_port_index_found(view, port, p as int);
                }
                return Some(p);
            }
            assert(view[p as int].port != port);
            p += 1;
        }
        proof {
            assert(!exists|j: int| 0 <= j < view.len() && (#[trigger] view[j]).port == port);
        }
        None
    }

    /// Add the endpoint `(id, endpoint)` for external `port` and `protocol`.
    fn add_endpoint(&mut self, id: EndpointId, endpoint: Endpoint, port: u16, protocol: String) -> (events: Vec<PortEvent>)
        requires
            old(self).wf(),
        ensures
            final(self)@.names == old(self)@.names,
            final(self)@.services == after_add(old(self)@.services, id@, endpoint@, port, protocol@).0,
            port_events_view(events@) == after_add(old(self)@.services, id@, endpoint@, port, protocol@).1,
    {
        let ghost old_services = self@.services;
        let ghost idv = id@;
        let ghost epv = endpoint@;
        let ghost protocolv = protocol@;
        let mut events: Vec<PortEvent> = Vec::new();
        match self.find_service(port) {
            None => {
                let mut endpoints: Vec<(EndpointId, Endpoint)> = Vec::new();
                endpoints.push((id, endpoint));
                self.services.push(Service::new(port, protocol.clone(), endpoints));
                events.push(PortEvent::Open { port, protocol });
                proof {
                    assert(endpoints_view(endpoints@) =~= seq![(idv, epv)]);
                    assert(self@.services =~= old_services.push(ServiceView { port, protocol: protocolv, endpoints: seq![(idv, epv)] }));
                    assert(port_events_view(events@) =~= seq![PortEventView::Open { port, protocol: protocolv }]);
                }
            },
            Some(p) => {
                proof {
                    assert(old_services[p as int] == self.services@[p as int]@);
                }
                let found = find_endpoint(&self.services[p].endpoints, &id);
                let ghost s = old_services[p as int];
                match found {
                    None => {
                        self.services[p].endpoints.push((id, endpoint));
                        proof {
                            assert(endpoints_view(self.services@[p as int].endpoints@) =~= s.endpoints.push((idv, epv)));
                            assert(self@.services =~= old_services.update(p as int, ServiceView { endpoints: s.endpoints.push((idv, epv)), ..s }));
                        }
                    },
                    Some(q) => {
                        self.services[p].endpoints[q] = (id, endpoint);
                        proof {
                            assert(endpoints_view(self.services@[p as int].endpoints@) =~= s.endpoints.update(q as int, (idv, epv)));
                            assert(self@.services =~= old_services.update(p as int, ServiceView { endpoints: s.endpoints.update(q as int, (idv, epv)), ..s }));
                        }
                    },
                }
                proof {
                    assert(port_events_view(events@) =~= Seq::<PortEventView>::empty());
                }
            },
        }
        events
    }

    /// Delete the endpoint `id` from every service, and close the services left with none.
    fn delete_endpoint(&mut self, id: EndpointId) -> (events: Vec<PortEvent>)
        requires
            old(self).wf(),
        ensures
            final(self)@.names == old(self)@.names,
            final(self)@.services == after_delete(old(self)@.services, id@).0,
            port_events_view(events@) == after_delete(old(self)@.services, id@).1,
    {
        let ghost orig = self@.services;
        let ghost names = self@.names;
        let mut services: Vec<Service> = Vec::new();
        std::mem::swap(&mut services, &mut self.services);
        let ghost orig_exec = services@;
        let mut kept: Vec<Service> = Vec::new();
        let mut events: Vec<PortEvent> = Vec::new();
        proof {
            assert(orig.take(0) =~= Seq::<ServiceView>::empty());
            assert(services_view(kept@) =~= Seq::<ServiceView>::empty());
            assert(port_events_view(events@) =~= Seq::<PortEventView>::empty());
        }
        for s in it: services.into_iter()
            invariant
                it.seq() == orig_exec,
                services_view(orig_exec) == orig,
                services_wf(orig),
                self@.names == names,
                services_view(kept@) == after_delete(orig.take(it.index() as int), id@).0,
                port_events_view(events@) == after_delete(orig.take(it.index() as int), id@).1,
        {
            let ghost i = it.index() as int;
            let mut s = s;
            let ghost sv = s@;
            proof {
                assert(orig.take(i + 1).drop_last() =~= orig.take(i));
                assert(orig[i] == sv);
                assert(orig.take(i + 1).last() == sv);
                assert(service_wf(orig[i]));
            }
            let found = find_endpoint(&s.endpoints, &id);
            match found {
                Some(q) => {
                    s.endpoints.remove(q);
                    proof {
                        assert(endpoints_view(s.endpoints@) =~= sv.endpoints.remove(q as int));
                    }
                },
                None => {},
            }
            proof {
                assert(endpoints_view(s.endpoints@) == without_id(sv.endpoints, id@));
            }
            if s.endpoints.len() == 0 {
                events.push(PortEvent::Close { port: s.port });
                proof {
                    assert(port_events_view(events@) =~= after_delete(orig.take(i), id@).1.push(PortEventView::Close { port: sv.port }));
                }
            } else {
                let ghost kept_before = kept@;
                kept.push(s);
                proof {
                    assert(services_view(kept@) =~= services_view(kept_before).push(ServiceView { endpoints: without_id(sv.endpoints, id@), ..sv }));
                }
            }
        }
        proof {
            assert(orig.take(orig.len() as int) =~= orig);
        }
        self.services = kept;
        events
    }

    /// Mark the endpoint `id` available or not in every service that has it.
    fn set_availability(&mut self, id: EndpointId, available: bool)
        requires
            old(self).wf(),
        ensures
            final(self)@.names == old(self)@.names,
            final(self)@.services == after_set_availability(old(self)@.services, id@, available),
    {
        let ghost orig = self@.services;
        let ghost names = self@.names;
        let mut i: usize = 0;
        while i < self.services.len()
            invariant
                i <= self.services@.len(),
                self.services@.len() == orig.len(),
                services_wf(orig),
                self@.names == names,
                forall|k: int| 0 <= k < i ==> (#[trigger] self.services@[k])@ == with_availability(orig[k], id@, available),
                forall|k: int| i <= k < orig.len() ==> (#[trigger] self.services@[k])@ == orig[k],
            decreases orig.len() - i,
        {
            let ghost sv = orig[i as int];
            proof {
                assert(self.services@[i as int]@ == sv);
                assert(service_wf(orig[i as int]));
            }
            let ghost before = self.services@;
            let found = find_endpoint(&self.services[i].endpoints, &id);
            match found {
                Some(q) => {
                    self.services[i].endpoints[q].1.is_available = available;
                    assert(forall|k: int| 0 <= k < before.len() && k != i ==> self.services@[k] == before[k]);
                    proof {
                        assert(endpoints_view(self.services@[i as int].endpoints@) =~= with_availability(sv, id@, available).endpoints);
                        assert(self.services@[i as int]@ == with_availability(sv, id@, available));
                    }
                },
                None => {
                    assert(self.services@[i as int]@ == with_availability(sv, id@, available));
                },
            }
            i += 1;
        }
        proof {
            assert(self@.services =~= after_set_availability(orig, id@, available));
        }
    }

    /// Apply an event from the endpoint discovery task `from` to the services, and return the
    /// port events that the listener of port events must receive, in order: an `Open` for a
    /// port that gains its first endpoint, a `Close` for each port that loses its last one.
    pub fn process_event(&mut self, from: &String, event: EndpointEvent) -> (events: Vec<PortEvent>)
        requires
            old(self).wf(),
        ensures
            final(self).wf(),
            final(self)@.names == old(self)@.names,
            final(self)@.services == after_event(old(self)@.services, from@, event@).0,
            port_events_view(events@) == after_event(old(self)@.services, from@, event@).1,
    {
        proof {
            law_events_keep_services_well_formed(self@.services, from@, event@);
        }
        match event {
            EndpointEvent::Add {
                uid,
                is_available,
                external_port,
                external_protocol,
                backend_address,
                backend_protocol,
            } => {
                let id = EndpointId::new(from.clone(), uid);
                let endpoint = Endpoint::new(is_available, backend_address, backend_protocol);
                self.add_endpoint(id, endpoint, external_port, external_protocol)
            },
            EndpointEvent::Delete { uid } => self.delete_endpoint(EndpointId::new(from.clone(), uid)),
            EndpointEvent::Suspend { uid } => {
                self.set_availability(EndpointId::new(from.clone(), uid), false);
                let events: Vec<PortEvent> = Vec::new();
                proof {
                    assert(port_events_view(events@) =~= Seq::<PortEventView>::empty());
                }
                events
            },
            EndpointEvent::Resume { uid } => {
                self.set_availability(EndpointId::new(from.clone(), uid), true);
                let events: Vec<PortEvent> = Vec::new();
                proof {
                    assert(port_events_view(events@) =~= Seq::<PortEventView>::empty());
                }
                events
            },
        }
    }

    /// The port events that a newly registered listener of port events must receive first: an
    /// `Open` for every served port, in the order of the services.
    pub fn open_port_events(&self) -> (events: Vec<PortEvent>)
        requires
            self.wf(),
        ensures
            port_events_view(events@) == self@.services.map_values(
                |s: ServiceView| PortEventView::Open { port: s.port, protocol: s.protocol },
            ),
    {
        let ghost services = self@.services;
        let mut events: Vec<PortEvent> = Vec::new();
        let mut i: usize = 0;
        while i < self.services.len()
            invariant
                i <= self.services@.len(),
                services == services_view(self.services@),
                port_events_view(events@) == services.take(i as int).map_values(
                    |s: ServiceView| PortEventView::Open { port: s.port, protocol: s.protocol },
                ),
            decreases self.services@.len() - i,
        {
            let ghost before = events@;
            events.push(PortEvent::Open { port: self.services[i].port, protocol: self.services[i].protocol.clone() });
            proof {
                assert(services[i as int] == self.services@[i as int]@);
                assert(port_events_view(events@) =~= port_events_view(before).push(
                    PortEventView::Open { port: services[i as int].port, protocol: services[i as int].protocol },
                ));
                assert(services.take(i + 1) =~= services.take(i as int).push(services[i as int]));
                assert(port_events_view(events@) =~= services.take(i + 1).map_values(
                    |s: ServiceView| PortEventView::Open { port: s.port, protocol: s.protocol },
                ));
            }
            i += 1;
        }
        proof {
            assert(services.take(i as int) =~= services);
        }
        events
    }

    /// Select an endpoint that can serve a connection from the given external port. The selection
    /// is semi-random and based on the `index` parameter: the endpoints of the port's service are
    /// tried in turn, starting with the one at `index` modulo their number and going round.
    ///
    /// If there is an endpoint available, return its address and which protocol should be used to
    /// communicate with it.
    pub fn get_endpoint_for(&self, port: u16, index: usize) -> (r: Option<(SocketAddress, String)>)
        requires
            self.wf(),
        ensures
            r is None <==> (port_index(self@.services, port) < 0 || !has_available(
                self@.services[port_index(self@.services, port)].endpoints,
            )),
            r is Some ==> ({
                let endpoints = self@.services[port_index(self@.services, port)].endpoints;
                let (address, protocol) = r->0;
                exists|j: int|
                    first_available_from(endpoints, index as int % endpoints.len() as int, j)
                        && address == endpoints[j].1.address && protocol@ == endpoints[j].1.protocol
            }),
    {
        match self.find_service(port) {
            None => None,
            Some(p) => {
                let service = &self.services[p];
                let ghost endpoints = self@.services[p as int].endpoints;
                proof {
                    assert(service_wf(self@.services[p as int]));
                    assert(endpoints == endpoints_view(service.endpoints@));
                }
                let n = service.endpoints.len();
                let start = index % n;
                let ghost ni = n as int;
                let ghost st = start as int;
                let mut j: usize = start;
                while j < n
                    invariant
                        0 < n == service.endpoints@.len() == endpoints.len(),
                        endpoints == endpoints_view(service.endpoints@),
                        ni == n,
                        st == start,
                        start < n,
                        start <= j <= n,
                        p < self@.services.len(),
                        port_index(self@.services, port) == p,
                        endpoints == self@.services[p as int].endpoints,
                        st == index as int % ni,
                        forall|k: int| 0 <= k < j - start ==> !(#[trigger] endpoints[cyclic_position(st, k, ni)]).1.is_available,
                    decreases n - j,
                {
                    if service.endpoints[j].1.is_available {
                        proof {
                            assert(cyclic_position(st, j - st, ni) == j);
                            assert(first_available_from(endpoints, st, j as int));
                            assert(endpoints[j as int].1.is_available);
                        }
                        return Some((service.endpoints[j].1.address, service.endpoints[j].1.protocol.clone()));
                    }
                    proof {
                        assert(cyclic_position(st, j - st, ni) == j);
                    }
                    j += 1;
                }
                let mut j: usize = 0;
                while j < start
                    invariant
                        0 < n == service.endpoints@.len() == endpoints.len(),
                        endpoints == endpoints_view(service.endpoints@),
                        ni == n,
                        st == start,
                        start < n,
                        j <= start,
                        p < self@.services.len(),
                        port_index(self@.services, port) == p,
                        endpoints == self@.services[p as int].endpoints,
                        st == index as int % ni,
                        forall|k: int| 0 <= k < ni - st + j ==> !(#[trigger] endpoints[cyclic_position(st, k, ni)]).1.is_available,
                    decreases start - j,
                {
                    if service.endpoints[j].1.is_available {
                        proof {
                            assert(cyclic_position(st, ni - st + j, ni) == j);
                            assert(first_available_from(endpoints, st, j as int));
                            assert(endpoints[j as int].1.is_available);
                        }
                        return Some((service.endpoints[j].1.address, service.endpoints[j].1.protocol.clone()));
                    }
                    proof {
                        assert(cyclic_position(st, ni - st + j, ni) == j);
                    }
                    j += 1;
                }
                proof {
                    assert forall|m: int| 0 <= m < endpoints.len() implies !(#[trigger] endpoints[m]).1.is_available by {
                        let k = if m >= st { m - st } else { ni - st + m };
                        assert(cyclic_position(st, k, ni) == m);
                    }
                }
                None
            },
        }
    }

    /// Register the endpoint discovery task `name`. Names are unique: registering a name twice is
    /// refused.
    pub fn register_endpoint_discovery(&mut self, name: String) -> (r: Result<(), ServiceManagerError>)
        requires
            old(self).wf(),
        ensures
            final(self).wf(),
            final(self)@.services == old(self)@.services,
            match r {
                Ok(()) => !old(self)@.names.contains(name@) && final(self)@.names == old(self)@.names.push(name@),
                Err(ServiceManagerError::DiscoveryAlreadyRegistered { name: n }) => old(self)@.names.contains(name@)
                    && n@ == name@ && final(self)@.names == old(self)@.names,
            },
    {
        let ghost names = self@.names;
        let mut i: usize = 0;
        while i < self.registered_endpoint_discovery_names.len()
            invariant
                i <= self.registered_endpoint_discovery_names@.len(),
                names == self.registered_endpoint_discovery_names@.map_values(|n: String| n@),
                forall|k: int| 0 <= k < i ==> names[k] != name@,
                self.wf(),
                self@ == old(self)@,
            decreases self.registered_endpoint_discovery_names@.len() - i,
        {
            if self.registered_endpoint_discovery_names[i] == name {
                proof {
                    assert(names[i as int] == name@);
                }
                return Err(ServiceManagerError::DiscoveryAlreadyRegistered { name });
            }
            i += 1;
        }
        proof {
            assert(!names.contains(name@));
        }
        self.registered_endpoint_discovery_names.push(name);
        proof {
            assert(self@.names =~= names.push(name@));
        }
        proof {
            assert forall|a: int, b: int| #![trigger self@.names[a], self@.names[b]] 0 <= a < b < self@.names.len() implies self@.names[a] != self@.names[b] by {
                if b == names.len() {
                    assert(self@.names[a] == names[a]);
                }
            }
        }
        Ok(())
    }

    /// The services, one per served port.
    pub fn services(&self) -> (r: &Vec<Service>)
        ensures
            services_view(r@) == self@.services,
    {
        &self.services
    }

    /// The names of the registered endpoint discovery tasks, in registration order.
    pub fn registered_endpoint_discovery_names(&self) -> (r: &Vec<String>)
        ensures
            r@.map_values(|n: String| n@) == self@.names,
    {
        &self.registered_endpoint_discovery_names
    }
}
} // verus!
