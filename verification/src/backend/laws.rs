//! What the service model promises across events.

use crate::backend::endpoint::{EndpointIdView, EndpointView};
use crate::backend::{
    after_add, after_delete, after_set_availability, has_available, id_index, lemma_after_delete_wf, lemma_id_index_found,
    lemma_without_id, port_index, services_wf, with_availability, without_id, PortEventView, ServiceView,
};
use vstd::prelude::*;

verus! {

/// After an endpoint is added, the service on its external port holds it, under its identifier;
/// an `Open` event is sent exactly when no service was on that port before.
pub proof fn law_add_then_lookup(
    services: Seq<ServiceView>,
    id: EndpointIdView,
    endpoint: EndpointView,
    port: u16,
    protocol: Seq<char>,
)
    requires
        services_wf(services),
    ensures
        ({
            let (after, events) = after_add(services, id, endpoint, port, protocol);
            let p = port_index(after, port);
            &&& 0 <= p < after.len()
            &&& 0 <= id_index(after[p].endpoints, id) < after[p].endpoints.len()
            &&& after[p].endpoints[id_index(after[p].endpoints, id)] == (id, endpoint)
            &&& events == (if port_index(services, port) < 0 {
                seq![PortEventView::Open { port, protocol }]
            } else {
                Seq::<PortEventView>::empty()
            })
        }),
{
    crate::backend::lemma_after_add_wf(services, id, endpoint, port, protocol);
    let after = after_add(services, id, endpoint, port, protocol).0;
    let p0 = port_index(services, port);
    if p0 < 0 {
        let p = services.len() as int;
        assert(after[p].port == port);
        crate::backend::lemma_port_index_found(after, port, p);
        assert(after[p].endpoints[0].0 == id);
        lemma_id_index_found(after[p].endpoints, id, 0);
    } else {
        assert(after[p0].port == port);
        crate::backend::lemma_port_index_found(after, port, p0);
        let s = services[p0];
        let q = id_index(s.endpoints, id);
        if q < 0 {
            let k = s.endpoints.len() as int;
            assert(after[p0].endpoints[k].0 == id);
            lemma_id_index_found(after[p0].endpoints, id, k);
        } else {
            assert(after[p0].endpoints[q].0 == id);
            lemma_id_index_found(after[p0].endpoints, id, q);
        }
    }
}

/// After the endpoint `id` is deleted, no service holds it. The service on each port that was
/// served stays, without `id`, exactly when it had another endpoint; otherwise a `Close` event
/// for its port is sent. No other port event is sent.
pub proof fn law_delete_removes_endpoint(services: Seq<ServiceView>, id: EndpointIdView)
    requires
        services_wf(services),
    ensures
        ({
            let (after, events) = after_delete(services, id);
            &&& forall|k: int, e: int|
                0 <= k < after.len() && 0 <= e < after[k].endpoints.len() ==> (#[trigger] after[k].endpoints[e]).0 != id
            &&& forall|i: int|
                #![trigger services[i]]
                0 <= i < services.len() ==> (events.contains(PortEventView::Close { port: services[i].port })
                    <==> without_id(services[i].endpoints, id).len() == 0)
            &&& forall|i: int|
                #![trigger services[i]]
                0 <= i < services.len() && without_id(services[i].endpoints, id).len() > 0 ==> exists|k: int|
                    0 <= k < after.len() && #[trigger] after[k] == (ServiceView {
                        endpoints: without_id(services[i].endpoints, id),
                        ..services[i]
                    })
            &&& forall|k: int|
                0 <= k < after.len() ==> exists|i: int|
                    0 <= i < services.len() && (#[trigger] services[i]).port == (#[trigger] after[k]).port
            &&& forall|x: int|
                0 <= x < events.len() ==> exists|i: int|
                    0 <= i < services.len() && #[trigger] events[x] == (PortEventView::Close { port: (#[trigger] services[i]).port })
        }),
    decreases services.len(),
{
    lemma_after_delete_wf(services, id);
    if services.len() > 0 {
        let rest = services.drop_last();
        assert(services_wf(rest)) by {
            assert forall|i: int, j: int| #![trigger rest[i], rest[j]] 0 <= i < j < rest.len() implies rest[i].port != rest[j].port by {
                assert(rest[i] == services[i] && rest[j] == services[j]);
            }
            assert forall|i: int| 0 <= i < rest.len() implies crate::backend::service_wf(#[trigger] rest[i]) by {
                assert(rest[i] == services[i]);
            }
        }
        law_delete_removes_endpoint(rest, id);
        let (kept, closed) = after_delete(rest, id);
        let (after, events) = after_delete(services, id);
        let n = services.len() - 1;
        let last = services[n];
        assert(crate::backend::service_wf(last));
        lemma_without_id(last.endpoints, id);
        let endpoints = without_id(last.endpoints, id);
        assert forall|k: int, e: int|
            0 <= k < after.len() && 0 <= e < after[k].endpoints.len() implies (#[trigger] after[k].endpoints[e]).0 != id by {
            if k < kept.len() {
                assert(after[k] == kept[k]);
            } else {
                assert(after[k].endpoints == endpoints);
            }
        }
        assert forall|i: int|
            #![trigger services[i]]
            0 <= i < services.len() implies (events.contains(PortEventView::Close { port: services[i].port })
                <==> without_id(services[i].endpoints, id).len() == 0) by {
            if i < n {
                assert(services[i] == rest[i]);
                assert(services[i].port != last.port);
                if endpoints.len() == 0 {
                    assert(events == closed.push(PortEventView::Close { port: last.port }));
                    if events.contains(PortEventView::Close { port: services[i].port }) {
                        let x = choose|x: int| 0 <= x < events.len() && events[x] == PortEventView::Close { port: services[i].port };
                        assert(x < closed.len());
                        assert(closed[x] == events[x]);
                    }
                    if closed.contains(PortEventView::Close { port: services[i].port }) {
                        let x = choose|x: int| 0 <= x < closed.len() && closed[x] == PortEventView::Close { port: services[i].port };
                        assert(events[x] == closed[x]);
                    }
                } else {
                    assert(events == closed);
                }
            } else {
                if endpoints.len() == 0 {
                    assert(events[closed.len() as int] == PortEventView::Close { port: last.port });
                } else {
                    assert(events == closed);
                    if events.contains(PortEventView::Close { port: last.port }) {
                        let x = choose|x: int| 0 <= x < events.len() && events[x] == PortEventView::Close { port: last.port };
                        let w = choose|w: int| 0 <= w < rest.len() && #[trigger] closed[x] == (PortEventView::Close { port: (#[trigger] rest[w]).port });
                        assert(services[w] == rest[w]);
                        assert(services[w].port != services[n].port);
                    }
                }
            }
        }
        assert forall|i: int|
            #![trigger services[i]]
            0 <= i < services.len() && without_id(services[i].endpoints, id).len() > 0 implies exists|k: int|
                0 <= k < after.len() && #[trigger] after[k] == (ServiceView { endpoints: without_id(services[i].endpoints, id), ..services[i] }) by {
            if i < n {
                assert(services[i] == rest[i]);
                let k = choose|k: int|
                    0 <= k < kept.len() && #[trigger] kept[k] == (ServiceView { endpoints: without_id(rest[i].endpoints, id), ..rest[i] });
                assert(after[k] == kept[k]);
            } else {
                assert(after[kept.len() as int] == (ServiceView { endpoints, ..last }));
            }
        }
        assert forall|x: int|
            0 <= x < events.len() implies exists|i: int|
                0 <= i < services.len() && #[trigger] events[x] == (PortEventView::Close { port: (#[trigger] services[i]).port }) by {
            if x < closed.len() {
                assert(events[x] == closed[x]);
                let w = choose|w: int| 0 <= w < rest.len() && #[trigger] closed[x] == (PortEventView::Close { port: (#[trigger] rest[w]).port });
                assert(services[w] == rest[w]);
            } else {
                assert(events[x] == PortEventView::Close { port: services[n].port });
            }
        }
    }
}

/// Suspending or resuming an endpoint changes only its availability: ports, protocols and the
/// endpoints of every service stay, the endpoint `id` becomes unavailable or available wherever
/// it is, and no port event is sent.
pub proof fn law_set_availability(services: Seq<ServiceView>, id: EndpointIdView, available: bool)
    requires
        services_wf(services),
    ensures
        ({
            let after = after_set_availability(services, id, available);
            &&& after.len() == services.len()
            &&& forall|i: int|
                #![trigger after[i]]
                0 <= i < services.len() ==> {
                    &&& after[i].port == services[i].port
                    &&& after[i].protocol == services[i].protocol
                    &&& after[i].endpoints.len() == services[i].endpoints.len()
                    &&& forall|e: int|
                        #![trigger after[i].endpoints[e]]
                        0 <= e < services[i].endpoints.len() ==> {
                            &&& after[i].endpoints[e].0 == services[i].endpoints[e].0
                            &&& after[i].endpoints[e].1.address == services[i].endpoints[e].1.address
                            &&& after[i].endpoints[e].1.protocol == services[i].endpoints[e].1.protocol
                            &&& after[i].endpoints[e].1.is_available == if services[i].endpoints[e].0 == id {
                                available
                            } else {
                                services[i].endpoints[e].1.is_available
                            }
                        }
                }
        }),
{
    let after = after_set_availability(services, id, available);
    assert forall|i: int| #![trigger after[i]] 0 <= i < services.len() implies {
        &&& after[i].port == services[i].port
        &&& after[i].protocol == services[i].protocol
        &&& after[i].endpoints.len() == services[i].endpoints.len()
        &&& forall|e: int|
            #![trigger after[i].endpoints[e]]
            0 <= e < services[i].endpoints.len() ==> {
                &&& after[i].endpoints[e].0 == services[i].endpoints[e].0
                &&& after[i].endpoints[e].1.address == services[i].endpoints[e].1.address
                &&& after[i].endpoints[e].1.protocol == services[i].endpoints[e].1.protocol
                &&& after[i].endpoints[e].1.is_available == if services[i].endpoints[e].0 == id {
                    available
                } else {
                    services[i].endpoints[e].1.is_available
                }
            }
    } by {
        let s = services[i];
        assert(crate::backend::service_wf(s));
        assert(after[i] == with_availability(s, id, available));
        let q = id_index(s.endpoints, id);
        assert forall|e: int| #![trigger after[i].endpoints[e]] 0 <= e < s.endpoints.len() implies {
            &&& after[i].endpoints[e].0 == s.endpoints[e].0
            &&& after[i].endpoints[e].1.address == s.endpoints[e].1.address
            &&& after[i].endpoints[e].1.protocol == s.endpoints[e].1.protocol
            &&& after[i].endpoints[e].1.is_available == if s.endpoints[e].0 == id {
                available
            } else {
                s.endpoints[e].1.is_available
            }
        } by {
            if q >= 0 {
                if e != q && s.endpoints[e].0 == id {
                    if e < q {
                        assert(s.endpoints[e].0 != s.endpoints[q].0);
                    } else {
                        assert(s.endpoints[q].0 != s.endpoints[e].0);
                    }
                }
            } else {
                assert(!(0 <= e < s.endpoints.len() && s.endpoints[e].0 == id));
            }
        }
    }
}

/// Resuming a suspended endpoint gives back the services as they were, where the endpoint was
/// available everywhere before.
pub proof fn law_suspend_then_resume(services: Seq<ServiceView>, id: EndpointIdView)
    requires
        services_wf(services),
        forall|i: int, e: int|
            0 <= i < services.len() && 0 <= e < services[i].endpoints.len() && (#[trigger] services[i].endpoints[e]).0 == id
                ==> services[i].endpoints[e].1.is_available,
    ensures
        after_set_availability(after_set_availability(services, id, false), id, true) == services,
{
    let mid = after_set_availability(services, id, false);
    let after = after_set_availability(mid, id, true);
    crate::backend::lemma_after_set_availability_wf(services, id, false);
    law_set_availability(services, id, false);
    law_set_availability(mid, id, true);
    assert forall|i: int| 0 <= i < services.len() implies #[trigger] after[i] == services[i] by {
        assert(mid[i].port == services[i].port);
        assert(after[i].port == mid[i].port);
        assert forall|e: int| 0 <= e < services[i].endpoints.len() implies #[trigger] after[i].endpoints[e] == services[i].endpoints[e] by {
            assert(after[i].endpoints[e].0 == mid[i].endpoints[e].0);
            assert(mid[i].endpoints[e].0 == services[i].endpoints[e].0);
            assert(after[i].endpoints[e].1.address == mid[i].endpoints[e].1.address);
            assert(after[i].endpoints[e].1.protocol == mid[i].endpoints[e].1.protocol);
            assert(mid[i].endpoints[e].1.address == services[i].endpoints[e].1.address);
            assert(mid[i].endpoints[e].1.protocol == services[i].endpoints[e].1.protocol);
        }
        assert(after[i].endpoints =~= services[i].endpoints);
    }
    assert(after =~= services);
}

/// Deleting an endpoint that no service holds changes nothing and sends nothing.
pub proof fn law_delete_unknown_is_noop(services: Seq<ServiceView>, id: EndpointIdView)
    requires
        services_wf(services),
        forall|i: int, e: int|
            0 <= i < services.len() && 0 <= e < services[i].endpoints.len() ==> (#[trigger] services[i].endpoints[e]).0 != id,
    ensures
        after_delete(services, id) == (services, Seq::<PortEventView>::empty()),
    decreases services.len(),
{
    if services.len() > 0 {
        let rest = services.drop_last();
        assert(services_wf(rest)) by {
            assert forall|i: int, j: int| #![trigger rest[i], rest[j]] 0 <= i < j < rest.len() implies rest[i].port != rest[j].port by {
                assert(rest[i] == services[i] && rest[j] == services[j]);
            }
            assert forall|i: int| 0 <= i < rest.len() implies crate::backend::service_wf(#[trigger] rest[i]) by {
                assert(rest[i] == services[i]);
            }
        }
        assert forall|i: int, e: int| 0 <= i < rest.len() && 0 <= e < rest[i].endpoints.len() implies (#[trigger] rest[i].endpoints[e]).0 != id by {
            assert(rest[i] == services[i]);
        }
        law_delete_unknown_is_noop(rest, id);
        let last = services.last();
        assert(crate::backend::service_wf(services[services.len() - 1]));
        assert(!(exists|j: int| 0 <= j < last.endpoints.len() && (#[trigger] last.endpoints[j]).0 == id)) by {
            assert forall|j: int| 0 <= j < last.endpoints.len() implies (#[trigger] last.endpoints[j]).0 != id by {
                assert(services[services.len() - 1].endpoints[j] == last.endpoints[j]);
            }
        }
        assert(without_id(last.endpoints, id) == last.endpoints);
        assert(rest.push(ServiceView { endpoints: last.endpoints, ..last }) =~= services);
    } else {
        assert(services =~= Seq::<ServiceView>::empty());
    }
}

/// Adding an endpoint for a port that no service is on, then deleting it, gives back the services
/// as they were; the port is opened, then closed.
pub proof fn law_add_then_delete(
    services: Seq<ServiceView>,
    id: EndpointIdView,
    endpoint: EndpointView,
    port: u16,
    protocol: Seq<char>,
)
    requires
        services_wf(services),
        port_index(services, port) < 0,
        forall|i: int, e: int|
            0 <= i < services.len() && 0 <= e < services[i].endpoints.len() ==> (#[trigger] services[i].endpoints[e]).0 != id,
    ensures
        after_add(services, id, endpoint, port, protocol).1 == seq![PortEventView::Open { port, protocol }],
        after_delete(after_add(services, id, endpoint, port, protocol).0, id) == (
            services,
            seq![PortEventView::Close { port }],
        ),
{
    let added = after_add(services, id, endpoint, port, protocol).0;
    assert(added.drop_last() =~= services);
    law_delete_unknown_is_noop(services, id);
    let last = added.last();
    assert(last.endpoints[0].0 == id);
    lemma_id_index_found(last.endpoints, id, 0);
    assert(without_id(last.endpoints, id).len() == 0);
    assert(Seq::<PortEventView>::empty().push(PortEventView::Close { port }) =~= seq![PortEventView::Close { port }]);
}

/// After an available endpoint is added, its port has an available endpoint: a connection to the
/// port is served, whatever the selection index.
pub proof fn law_added_available_endpoint_is_selectable(
    services: Seq<ServiceView>,
    id: EndpointIdView,
    endpoint: EndpointView,
    port: u16,
    protocol: Seq<char>,
)
    requires
        services_wf(services),
        endpoint.is_available,
    ensures
        ({
            let after = after_add(services, id, endpoint, port, protocol).0;
            &&& port_index(after, port) >= 0
            &&& has_available(after[port_index(after, port)].endpoints)
        }),
{
    law_add_then_lookup(services, id, endpoint, port, protocol);
    let after = after_add(services, id, endpoint, port, protocol).0;
    let p = port_index(after, port);
    let e = after[p].endpoints;
    let q = id_index(e, id);
    assert(e[q].1.is_available);
}

/// An `Add` serves its external port with its external protocol: where no service was on the
/// port, the new service there has the event's external protocol (whatever protocol the endpoint
/// itself speaks), and the `Open` event names it. Every service that was there keeps its place,
/// its port and its protocol, and a service on another port is left as it was.
pub proof fn law_add_serves_the_external_protocol(
    services: Seq<ServiceView>,
    id: EndpointIdView,
    endpoint: EndpointView,
    port: u16,
    protocol: Seq<char>,
)
    requires
        services_wf(services),
    ensures
        ({
            let (after, events) = after_add(services, id, endpoint, port, protocol);
            let p = port_index(after, port);
            &&& 0 <= p < after.len()
            &&& port_index(services, port) < 0 ==> after[p].protocol == protocol
                && events == seq![PortEventView::Open { port, protocol }]
            &&& services.len() <= after.len()
            &&& forall|k: int| 0 <= k < services.len() ==> {
                &&& (#[trigger] after[k]).port == services[k].port
                &&& after[k].protocol == services[k].protocol
                &&& services[k].port != port ==> after[k] == services[k]
            }
        }),
{
    law_add_then_lookup(services, id, endpoint, port, protocol);
    let after = after_add(services, id, endpoint, port, protocol).0;
    let p0 = port_index(services, port);
    crate::backend::lemma_after_add_wf(services, id, endpoint, port, protocol);
    if p0 < 0 {
        let n = services.len() as int;
        assert(after[n].port == port);
        crate::backend::lemma_port_index_found(after, port, n);
        assert forall|k: int| 0 <= k < services.len() implies (#[trigger] after[k]) == services[k] by {}
    } else {
        assert(services[p0].port == port);
        assert forall|k: int| 0 <= k < services.len() implies {
            &&& (#[trigger] after[k]).port == services[k].port
            &&& after[k].protocol == services[k].protocol
            &&& services[k].port != port ==> after[k] == services[k]
        } by {
            if k != p0 {
                assert(after[k] == services[k]);
            }
        }
    }
}

/// An `Add` changes only the endpoint it names: in every service, each endpoint with another
/// identifier stays where it was, unchanged, and no endpoint is dropped.
pub proof fn law_add_changes_only_its_endpoint(
    services: Seq<ServiceView>,
    id: EndpointIdView,
    endpoint: EndpointView,
    port: u16,
    protocol: Seq<char>,
)
    requires
        services_wf(services),
    ensures
        ({
            let after = after_add(services, id, endpoint, port, protocol).0;
            forall|k: int, j: int|
                #![trigger after[k].endpoints[j]]
                0 <= k < services.len() && 0 <= j < services[k].endpoints.len() ==> {
                    &&& services[k].endpoints.len() <= after[k].endpoints.len()
                    &&& services[k].endpoints[j].0 != id ==> after[k].endpoints[j] == services[k].endpoints[j]
                    &&& services[k].endpoints[j].0 == id ==> after[k].endpoints[j].0 == id
                }
        }),
{
    let after = after_add(services, id, endpoint, port, protocol).0;
    let p0 = port_index(services, port);
    if p0 >= 0 {
        let s = services[p0];
        let q = id_index(s.endpoints, id);
        assert forall|k: int, j: int|
            #![trigger after[k].endpoints[j]]
            0 <= k < services.len() && 0 <= j < services[k].endpoints.len() implies {
                &&& services[k].endpoints.len() <= after[k].endpoints.len()
                &&& services[k].endpoints[j].0 != id ==> after[k].endpoints[j] == services[k].endpoints[j]
                &&& services[k].endpoints[j].0 == id ==> after[k].endpoints[j].0 == id
            } by {
            if k != p0 {
                assert(after[k] == services[k]);
            } else if q >= 0 {
                assert(s.endpoints[q].0 == id);
            }
        }
    } else {
        assert forall|k: int, j: int|
            #![trigger after[k].endpoints[j]]
            0 <= k < services.len() && 0 <= j < services[k].endpoints.len() implies {
                &&& services[k].endpoints.len() <= after[k].endpoints.len()
                &&& services[k].endpoints[j].0 != id ==> after[k].endpoints[j] == services[k].endpoints[j]
                &&& services[k].endpoints[j].0 == id ==> after[k].endpoints[j].0 == id
            } by {
            assert(after[k] == services[k]);
        }
    }
}

} // verus!
