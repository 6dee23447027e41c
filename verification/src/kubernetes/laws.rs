//! What pod discovery promises across events.

use crate::backend::endpoint::EndpointEventView;
use crate::kubernetes::{
    after_apply_pod, after_phase, after_pod_event, after_restart_pods, decimal_digits, deletions, forget_uid,
    discovered_services, is_decimal_digit, lemma_decimal_digits, lemma_uid_index_found, port_of_text, remember_uid, service_event,
    uid_index, uids_distinct, PodEventView, PodInfoView, PodIpView, PodOutcome,
};
use crate::net::{IpAddress, SocketAddress};
use crate::text::{lemma_split_on_join, lemma_split_on_without_separator, split_on};
use vstd::prelude::*;

verus! {

/// The service string written from two ports and two protocols reads back as the endpoint they
/// describe: `<external-port>:<external-protocol>:<backend-port>:<backend-protocol>`.
pub proof fn law_service_string_round_trip(
    external_port: u16,
    external_protocol: Seq<char>,
    backend_port: u16,
    backend_protocol: Seq<char>,
    uid: Seq<char>,
    address: IpAddress,
)
    requires
        !external_protocol.contains(':'),
        !backend_protocol.contains(':'),
    ensures
        service_event(
            decimal_digits(external_port as nat) + seq![':'] + external_protocol + seq![':'] + decimal_digits(
                backend_port as nat,
            ) + seq![':'] + backend_protocol,
            uid,
            address,
        ) == Ok::<EndpointEventView, crate::kubernetes::ServiceStringErrorView>(EndpointEventView::Add {
            uid,
            is_available: false,
            external_port,
            external_protocol,
            backend_address: SocketAddress { ip: address, port: backend_port },
            backend_protocol,
        }),
{
    let e = decimal_digits(external_port as nat);
    let b = decimal_digits(backend_port as nat);
    lemma_decimal_digits(external_port as nat);
    lemma_decimal_digits(backend_port as nat);
    assert(!e.contains(':')) by {
        if e.contains(':') {
            let k = choose|k: int| 0 <= k < e.len() && e[k] == ':';
            assert(is_decimal_digit(e[k]));
        }
    }
    assert(!b.contains(':')) by {
        if b.contains(':') {
            let k = choose|k: int| 0 <= k < b.len() && b[k] == ':';
            assert(is_decimal_digit(b[k]));
        }
    }
    let tail2 = b + seq![':'] + backend_protocol;
    let tail1 = external_protocol + seq![':'] + tail2;
    let whole = e + seq![':'] + tail1;
    assert(whole =~= e + seq![':'] + external_protocol + seq![':'] + b + seq![':'] + backend_protocol);
    lemma_split_on_join(b, backend_protocol, ':');
    lemma_split_on_join(external_protocol, tail2, ':');
    lemma_split_on_join(e, tail1, ':');
    lemma_split_on_without_separator(e, ':');
    lemma_split_on_without_separator(b, ':');
    lemma_split_on_without_separator(external_protocol, ':');
    lemma_split_on_without_separator(backend_protocol, ':');
    let parts = split_on(whole, ':');
    assert(parts =~= seq![e, external_protocol, b, backend_protocol]);
    assert(e.len() > 0 && e[0] != '+') by {
        assert(is_decimal_digit(e[0]));
    }
    assert(b.len() > 0 && b[0] != '+') by {
        assert(is_decimal_digit(b[0]));
    }
    assert(port_of_text(e) == Some(external_port));
    assert(port_of_text(b) == Some(backend_port));
}

/// After a known pod is deleted, it is not known any more, a `Delete` event is sent for it, and the
/// other known pods stay known.
pub proof fn law_deleted_pod_is_forgotten(known: Seq<Seq<char>>, pod: PodInfoView)
    requires
        uids_distinct(known),
        pod.uid is Some,
        known.contains(pod.uid->0),
    ensures
        ({
            let o = after_pod_event(known, PodEventView::Deleted(pod));
            let uid = pod.uid->0;
            &&& !o.known.contains(uid)
            &&& o.events == seq![EndpointEventView::Delete { uid }]
            &&& o.error is None
            &&& forall|other: Seq<char>| other != uid && known.contains(other) ==> #[trigger] o.known.contains(other)
        }),
{
    let uid = pod.uid->0;
    let o = after_pod_event(known, PodEventView::Deleted(pod));
    let k = uid_index(known, uid);
    if k >= 0 {
        known.remove_ensures(k);
        assert(!o.known.contains(uid)) by {
            if o.known.contains(uid) {
                let m = choose|m: int| 0 <= m < o.known.len() && o.known[m] == uid;
                let m2 = if m < k { m } else { m + 1 };
                assert(o.known[m] == known[m2]);
                if m2 < k {
                    assert(known[m2] != known[k]);
                } else {
                    assert(known[k] != known[m2]);
                }
            }
        }
        assert forall|other: Seq<char>| other != uid && known.contains(other) implies #[trigger] o.known.contains(other) by {
            let m = choose|m: int| 0 <= m < known.len() && known[m] == other;
            assert(m != k);
            let m2 = if m < k { m } else { m - 1 };
            assert(o.known[m2] == other);
        }
    }
}

/// The deletion of a pod that is not known, because it never announced itself or was already
/// deleted, sends nothing and changes nothing.
pub proof fn law_unknown_deleted_pod_is_ignored(known: Seq<Seq<char>>, pod: PodInfoView)
    requires
        pod.uid is None || !known.contains(pod.uid->0),
    ensures
        after_pod_event(known, PodEventView::Deleted(pod)) == (crate::kubernetes::PodOutcome {
            known,
            events: Seq::<EndpointEventView>::empty(),
            error: None,
        }),
{
}

/// A pod that is already known never has its services added again: its phase asks for at most
/// one `Resume`, `Delete` or `Suspend` event.
pub proof fn law_known_pod_is_not_added_again(known: Seq<Seq<char>>, pod: PodInfoView)
    requires
        pod.uid is Some,
        known.contains(pod.uid->0),
    ensures
        ({
            let o = after_apply_pod(known, pod);
            &&& o.events.len() <= 1
            &&& forall|i: int| 0 <= i < o.events.len() ==> !(#[trigger] o.events[i] is Add)
        }),
{
    let o = after_apply_pod(known, pod);
    assert forall|i: int| 0 <= i < o.events.len() implies !(#[trigger] o.events[i] is Add) by {
        assert(o.events.len() == 1);
    }
}

/// The pods that a restart finds: the uids seen are exactly the uids of the listed pods, seen
/// once each, where no pod was refused.
proof fn lemma_restart_current(known: Seq<Seq<char>>, pods: Seq<PodInfoView>)
    ensures
        uids_distinct(after_restart_pods(known, pods).current),
        after_restart_pods(known, pods).error is None ==> forall|u: Seq<char>|
            #[trigger] after_restart_pods(known, pods).current.contains(u) <==> exists|i: int|
                0 <= i < pods.len() && (#[trigger] pods[i]).uid == Some(u),
    decreases pods.len(),
{
    if pods.len() > 0 {
        let rest = pods.drop_last();
        lemma_restart_current(known, rest);
        let r = after_restart_pods(known, rest);
        let whole = after_restart_pods(known, pods);
        if r.error is None {
            let pod = pods.last();
            match pod.uid {
                None => {
                    if whole.error is None {
                        assert forall|u: Seq<char>| #[trigger] whole.current.contains(u) <==> exists|i: int|
                            0 <= i < pods.len() && (#[trigger] pods[i]).uid == Some(u) by {
                            if exists|i: int| 0 <= i < pods.len() && (#[trigger] pods[i]).uid == Some(u) {
                                let i = choose|i: int| 0 <= i < pods.len() && (#[trigger] pods[i]).uid == Some(u);
                                assert(i < rest.len());
                                assert(rest[i] == pods[i]);
                            }
                            if r.current.contains(u) {
                                let i = choose|i: int| 0 <= i < rest.len() && (#[trigger] rest[i]).uid == Some(u);
                                assert(pods[i] == rest[i]);
                            }
                        }
                    }
                },
                Some(uid) => {
                    let cur = r.current;
                    assert(uids_distinct(remember_uid(cur, uid))) by {
                        if !cur.contains(uid) {
                            let after = cur.push(uid);
                            assert forall|a: int, b: int| #![trigger after[a], after[b]] 0 <= a < b < after.len() implies after[a] != after[b] by {
                                if b == cur.len() {
                                    assert(after[a] == cur[a]);
                                }
                            }
                        }
                    }
                    if whole.error is None {
                        assert forall|u: Seq<char>| #[trigger] whole.current.contains(u) <==> exists|i: int|
                            0 <= i < pods.len() && (#[trigger] pods[i]).uid == Some(u) by {
                            if exists|i: int| 0 <= i < pods.len() && (#[trigger] pods[i]).uid == Some(u) {
                                let i = choose|i: int| 0 <= i < pods.len() && (#[trigger] pods[i]).uid == Some(u);
                                if i < rest.len() {
                                    assert(rest[i] == pods[i]);
                                    assert(cur.contains(u));
                                    if !cur.contains(uid) {
                                        let j = choose|j: int| 0 <= j < cur.len() && cur[j] == u;
                                        assert(cur.push(uid)[j] == u);
                                    }
                                } else {
                                    assert(u == uid);
                                    if !cur.contains(uid) {
                                        assert(cur.push(uid)[cur.len() as int] == uid);
                                    }
                                }
                            }
                            if whole.current.contains(u) {
                                if u == uid {
                                    assert(pods[pods.len() - 1].uid == Some(u));
                                } else {
                                    let j = choose|j: int| 0 <= j < whole.current.len() && whole.current[j] == u;
                                    if cur.contains(uid) {
                                        assert(cur.contains(u));
                                    } else {
                                        assert(j < cur.len());
                                        assert(cur[j] == u);
                                    }
                                    assert(cur.contains(u));
                                    assert(r.current.contains(u));
                                    let i = choose|i: int| 0 <= i < rest.len() && (#[trigger] rest[i]).uid == Some(u);
                                    assert(pods[i] == rest[i]);
                                }
                            }
                        }
                    }
                },
            }
        }
    } else {
        assert(after_restart_pods(known, pods).current =~= Seq::<Seq<char>>::empty());
    }
}

/// `deletions` deletes exactly the uids of `old` that are not in `current`.
proof fn lemma_deletions(old: Seq<Seq<char>>, current: Seq<Seq<char>>)
    ensures
        forall|u: Seq<char>|
            #[trigger] deletions(old, current).contains(EndpointEventView::Delete { uid: u }) <==> (old.contains(u)
                && !current.contains(u)),
        forall|i: int| 0 <= i < deletions(old, current).len() ==> (#[trigger] deletions(old, current)[i]) is Delete,
    decreases old.len(),
{
    if old.len() > 0 {
        let rest = old.drop_last();
        lemma_deletions(rest, current);
        let d = deletions(rest, current);
        let last = old.last();
        assert forall|u: Seq<char>|
            #[trigger] deletions(old, current).contains(EndpointEventView::Delete { uid: u }) <==> (old.contains(u)
                && !current.contains(u)) by {
            let ev = EndpointEventView::Delete { uid: u };
            if old.contains(u) && !current.contains(u) {
                let k = choose|k: int| 0 <= k < old.len() && old[k] == u;
                if k < rest.len() {
                    assert(rest[k] == u);
                    assert(d.contains(ev));
                    if !current.contains(last) {
                        let x = choose|x: int| 0 <= x < d.len() && d[x] == ev;
                        assert(d.push(EndpointEventView::Delete { uid: last })[x] == ev);
                    }
                } else {
                    assert(u == last);
                    assert(d.push(EndpointEventView::Delete { uid: last })[d.len() as int] == ev);
                }
            }
            if deletions(old, current).contains(ev) {
                let x = choose|x: int| 0 <= x < deletions(old, current).len() && deletions(old, current)[x] == ev;
                if current.contains(last) {
                    assert(d.contains(ev));
                    let k = choose|k: int| 0 <= k < rest.len() && rest[k] == u;
                    assert(old[k] == u);
                } else if x < d.len() {
                    assert(d[x] == ev);
                    assert(d.contains(ev));
                    let k = choose|k: int| 0 <= k < rest.len() && rest[k] == u;
                    assert(old[k] == u);
                } else {
                    assert(u == last);
                    assert(old[old.len() - 1] == u);
                }
            }
        }
    }
}

/// After a restart in which no pod is refused, the known pods are exactly those listed, and a
/// `Delete` event is sent for each pod known before, and not listed, and for no other.
pub proof fn law_restart_keeps_only_listed_pods(known: Seq<Seq<char>>, pods: Seq<PodInfoView>)
    ensures
        ({
            let o = after_pod_event(known, PodEventView::Restarted(pods));
            let r = after_restart_pods(known, pods);
            o.error is None ==> {
                &&& uids_distinct(o.known)
                &&& forall|u: Seq<char>|
                    #[trigger] o.known.contains(u) <==> exists|i: int| 0 <= i < pods.len() && (#[trigger] pods[i]).uid == Some(u)
                &&& forall|u: Seq<char>|
                    #[trigger] o.events.subrange(r.events.len() as int, o.events.len() as int).contains(
                        EndpointEventView::Delete { uid: u },
                    ) <==> (r.known.contains(u) && !o.known.contains(u))
            }
        }),
{
    lemma_restart_current(known, pods);
    let r = after_restart_pods(known, pods);
    let o = after_pod_event(known, PodEventView::Restarted(pods));
    if o.error is None {
        lemma_deletions(r.known, r.current);
        assert(o.events.subrange(r.events.len() as int, o.events.len() as int) =~= deletions(r.known, r.current));
    }
}

/// A pod that lacks its status, uid, name, annotations, IP or phase is ignored: nothing is sent,
/// nothing is refused and the known pods stay as they were, so that the pod is taken up, services
/// and all, once it is complete.
pub proof fn law_incomplete_pod_is_ignored(known: Seq<Seq<char>>, pod: PodInfoView)
    requires
        pod.status is None || pod.uid is None || pod.name is None || pod.annotations is None
            || pod.status->0.pod_ip is None || pod.status->0.phase is None,
    ensures
        after_pod_event(known, PodEventView::Applied(pod)) == (PodOutcome {
            known,
            events: Seq::<EndpointEventView>::empty(),
            error: None,
        }),
{
}

/// A pod seen for the first time, whose service strings are all accepted, has its services added
/// and then gets exactly what its phase asks for of a pod already known, and ends known or not as
/// that pod would. So a new `Succeeded` pod ends with a `Delete` and is not known, and a new
/// `Running` pod ends with a `Resume` and is known.
pub proof fn law_new_pod_gets_its_services_then_its_phase(
    known: Seq<Seq<char>>,
    pod: PodInfoView,
    address: IpAddress,
)
    requires
        uids_distinct(known),
        pod.status is Some,
        pod.uid is Some,
        pod.name is Some,
        pod.annotations is Some,
        pod.status->0.pod_ip == Some(PodIpView::Address(address)),
        pod.status->0.phase is Some,
        !known.contains(pod.uid->0),
        discovered_services(pod.annotations->0, pod.uid->0, pod.name->0, address).1 is None,
    ensures
        ({
            let uid = pod.uid->0;
            let phase = pod.status->0.phase->0;
            let added = discovered_services(pod.annotations->0, uid, pod.name->0, address).0;
            let fresh = after_pod_event(known, PodEventView::Applied(pod));
            let again = after_pod_event(known.push(uid), PodEventView::Applied(pod));
            &&& fresh.error is None
            &&& fresh.events == added + again.events
            &&& fresh.known == again.known
            &&& phase == "Succeeded"@ ==> fresh.known == known
                && fresh.events == added.push(EndpointEventView::Delete { uid })
            &&& phase == "Running"@ ==> fresh.known == known.push(uid)
                && fresh.events == added.push(EndpointEventView::Resume { uid })
        }),
{
    let uid = pod.uid->0;
    let n = known.len() as int;
    let pushed = known.push(uid);
    assert(pushed[n] == uid);
    assert(pushed.contains(uid));
    assert(uids_distinct(pushed)) by {
        assert forall|i: int, j: int| #![trigger pushed[i], pushed[j]] 0 <= i < j < pushed.len() implies pushed[i] != pushed[j] by {
            if j == n {
                assert(pushed[i] == known[i]);
            } else {
                assert(pushed[i] == known[i] && pushed[j] == known[j]);
            }
        }
    }
    lemma_uid_index_found(pushed, uid, n);
    assert(pushed.remove(n) =~= known);
    let added = discovered_services(pod.annotations->0, uid, pod.name->0, address).0;
    let empty = Seq::<EndpointEventView>::empty();
    assert forall|e: EndpointEventView| added.push(e) =~= added + #[trigger] empty.push(e) by {
        assert(empty.push(e) =~= seq![e]);
    }
    assert(added =~= added + empty);
    let phase = pod.status->0.phase->0;
    reveal_strlit("Running");
    reveal_strlit("Succeeded");
    reveal_strlit("Pending");
    let fresh = after_pod_event(known, PodEventView::Applied(pod));
    let again = after_pod_event(known.push(uid), PodEventView::Applied(pod));
    assert(fresh == after_phase(pushed, added, uid, phase));
    assert(again == after_phase(pushed, empty, uid, phase));
    if phase == "Running"@ {
        assert(added.push(EndpointEventView::Resume { uid }) =~= added + empty.push(EndpointEventView::Resume { uid }));
        assert("Running"@.len() != "Succeeded"@.len());
    } else if phase == "Succeeded"@ {
        assert(added.push(EndpointEventView::Delete { uid }) =~= added + empty.push(EndpointEventView::Delete { uid }));
        assert(forget_uid(pushed, uid) == pushed.remove(n));
        assert(pushed.remove(n) =~= known);
    } else if phase == "Pending"@ {
        assert("Pending"@.len() != "Succeeded"@.len());
    } else {
        assert(added.push(EndpointEventView::Suspend { uid }) =~= added + empty.push(EndpointEventView::Suspend { uid }));
    }
}

} // verus!
