use state_proxy::backend::endpoint::EndpointEvent;
use state_proxy::kubernetes::{
    explicit_cluster_url, parse_port, service_from_string, DiscoveryError, KubernetesConfigError,
    KubernetesDiscoveryRuntime, KubernetesEndpointDiscovery, PodEvent, PodInfo, PodIp, PodStatusInfo,
    PortError, RestartBuffer, ServiceStringError, WatchEvent, SERVICES_ANNOTATION,
};
use state_proxy::net::{IpAddress, SocketAddress};

fn pod(uid: &str, phase: &str, services: Option<&str>) -> PodInfo {
    let mut annotations = vec![("other".to_owned(), "x".to_owned())];
    if let Some(services) = services {
        annotations.push((SERVICES_ANNOTATION.to_owned(), services.to_owned()));
    }
    PodInfo {
        uid: Some(uid.to_owned()),
        name: Some(format!("pod-{}", uid)),
        annotations: Some(annotations),
        status: Some(PodStatusInfo {
            pod_ip: Some(PodIp::Address(IpAddress::V4([10, 0, 0, 5]))),
            phase: Some(phase.to_owned()),
        }),
    }
}

fn pod_address(port: u16) -> SocketAddress {
    SocketAddress::new(IpAddress::V4([10, 0, 0, 5]), port)
}

fn runtime() -> KubernetesDiscoveryRuntime {
    KubernetesDiscoveryRuntime::new("kubernetes@https://cluster/default".to_owned())
}

#[test]
fn parse_port_reads_port_numbers() {
    assert_eq!(parse_port("80"), Ok(80));
    assert_eq!(parse_port("+443"), Ok(443));
    assert_eq!(parse_port("0"), Ok(0));
    assert_eq!(parse_port("65535"), Ok(65535));
    assert_eq!(parse_port("0080"), Ok(80));
    for bad in ["", "+", "65536", "99999999999", "-1", "8a", " 80", "http"] {
        assert_eq!(
            parse_port(bad),
            Err(PortError::NotAPortNumber { text: bad.to_owned() }),
            "{}",
            bad
        );
    }
}

#[test]
fn parse_port_agrees_with_the_standard_library() {
    for text in ["1", "12", "123", "1234", "12345", "65535", "65536", "+0", "+65535", "007", "1e3"] {
        assert_eq!(parse_port(text).ok(), text.parse::<u16>().ok(), "{}", text);
    }
}

#[test]
fn service_string_gives_an_add_event() {
    assert_eq!(
        service_from_string("80:http:8080:ssh", "uid".to_owned(), IpAddress::V4([10, 0, 0, 5])),
        Ok(EndpointEvent::add(
            "uid".to_owned(),
            false,
            80,
            "http".to_owned(),
            pod_address(8080),
            "ssh".to_owned()
        ))
    );
    // Anything after a fourth part is ignored.
    assert_eq!(
        service_from_string("80:http:80:http:garbage", "uid".to_owned(), IpAddress::V4([10, 0, 0, 5])),
        Ok(EndpointEvent::add("uid".to_owned(), false, 80, "http".to_owned(), pod_address(80), "http".to_owned()))
    );
}

#[test]
fn bad_service_strings_are_refused() {
    let ip = IpAddress::V4([10, 0, 0, 5]);
    assert_eq!(service_from_string("80:http:80", "u".to_owned(), ip), Err(ServiceStringError::MissingParts));
    assert_eq!(service_from_string("", "u".to_owned(), ip), Err(ServiceStringError::MissingParts));
    assert_eq!(
        service_from_string("x:http:80:http", "u".to_owned(), ip),
        Err(ServiceStringError::NotAPortNumber { text: "x".to_owned() })
    );
    assert_eq!(
        service_from_string("80:http:70000:http", "u".to_owned(), ip),
        Err(ServiceStringError::NotAPortNumber { text: "70000".to_owned() })
    );
}

#[test]
fn a_pending_then_running_then_deleted_pod() {
    let mut runtime = runtime();
    let (events, result) = runtime.handle_pod_event(PodEvent::Applied(pod("3", "Pending", Some("80:http:80:http"))));
    assert_eq!(result, Ok(()));
    assert_eq!(
        events,
        vec![EndpointEvent::add("3".to_owned(), false, 80, "http".to_owned(), pod_address(80), "http".to_owned())]
    );
    let (events, result) = runtime.handle_pod_event(PodEvent::Applied(pod("3", "Running", Some("80:http:80:http"))));
    assert_eq!(result, Ok(()));
    assert_eq!(events, vec![EndpointEvent::resume("3".to_owned())]);
    let (events, result) = runtime.handle_pod_event(PodEvent::Deleted(pod("3", "Running", None)));
    assert_eq!(result, Ok(()));
    assert_eq!(events, vec![EndpointEvent::delete("3".to_owned())]);
    assert!(runtime.known_pod_uids().is_empty());
}

#[test]
fn a_new_running_pod_is_added_then_resumed() {
    let mut runtime = runtime();
    let (events, _) = runtime.handle_pod_event(PodEvent::Applied(pod("1", "Running", Some("80:http:80:http,22:ssh:2222:ssh"))));
    assert_eq!(
        events,
        vec![
            EndpointEvent::add("1".to_owned(), false, 80, "http".to_owned(), pod_address(80), "http".to_owned()),
            EndpointEvent::add("1".to_owned(), false, 22, "ssh".to_owned(), pod_address(2222), "ssh".to_owned()),
            EndpointEvent::resume("1".to_owned()),
        ]
    );
}

#[test]
fn phases_ask_for_suspension_or_deletion() {
    let mut runtime = runtime();
    runtime.handle_pod_event(PodEvent::Applied(pod("1", "Pending", None)));
    for phase in ["Failed", "Unknown", "Weird"] {
        let (events, _) = runtime.handle_pod_event(PodEvent::Applied(pod("1", phase, None)));
        assert_eq!(events, vec![EndpointEvent::suspend("1".to_owned())]);
    }
    let (events, _) = runtime.handle_pod_event(PodEvent::Applied(pod("1", "Pending", None)));
    assert!(events.is_empty());
    let (events, _) = runtime.handle_pod_event(PodEvent::Applied(pod("1", "Succeeded", None)));
    assert_eq!(events, vec![EndpointEvent::delete("1".to_owned())]);
    assert!(runtime.known_pod_uids().is_empty());
}

#[test]
fn incomplete_pods_are_ignored() {
    let mut runtime = runtime();
    let mut no_status = pod("1", "Running", Some("80:http:80:http"));
    no_status.status = None;
    let mut no_annotations = pod("2", "Running", Some("80:http:80:http"));
    no_annotations.annotations = None;
    let mut no_uid = pod("3", "Running", Some("80:http:80:http"));
    no_uid.uid = None;
    for p in [no_status, no_annotations, no_uid] {
        let (events, result) = runtime.handle_pod_event(PodEvent::Applied(p));
        assert!(events.is_empty());
        assert_eq!(result, Ok(()));
    }
    assert!(runtime.known_pod_uids().is_empty());
}

#[test]
fn a_bad_address_is_an_error() {
    let mut runtime = runtime();
    let mut p = pod("1", "Running", Some("80:http:80:http"));
    p.status.as_mut().unwrap().pod_ip = Some(PodIp::Unparsable("10.0.0".to_owned()));
    let (events, result) = runtime.handle_pod_event(PodEvent::Applied(p));
    assert!(events.is_empty());
    assert_eq!(
        result,
        Err(DiscoveryError::InvalidPodAddress {
            address: "10.0.0".to_owned(),
            pod_name: "pod-1".to_owned(),
            uid: "1".to_owned()
        })
    );
}

#[test]
fn a_bad_service_string_stops_after_the_good_ones() {
    let mut runtime = runtime();
    let (events, result) = runtime.handle_pod_event(PodEvent::Applied(pod("1", "Running", Some("80:http:80:http,bad,81:http:81:http"))));
    assert_eq!(
        events,
        vec![EndpointEvent::add("1".to_owned(), false, 80, "http".to_owned(), pod_address(80), "http".to_owned())]
    );
    assert_eq!(
        result,
        Err(DiscoveryError::InvalidServiceString {
            service_string: "bad".to_owned(),
            pod_name: "pod-1".to_owned(),
            uid: "1".to_owned(),
            error: ServiceStringError::MissingParts,
        })
    );
    // The pod is known now: it is not added again.
    assert_eq!(runtime.known_pod_uids(), &vec!["1".to_owned()]);
}

#[test]
fn a_restart_deletes_the_pods_that_went() {
    let mut runtime = runtime();
    runtime.handle_pod_event(PodEvent::Applied(pod("1", "Running", None)));
    runtime.handle_pod_event(PodEvent::Applied(pod("2", "Running", None)));
    let (events, result) = runtime.handle_pod_event(PodEvent::Restarted(vec![
        pod("2", "Running", None),
        pod("3", "Pending", Some("80:http:80:http")),
    ]));
    assert_eq!(result, Ok(()));
    assert_eq!(
        events,
        vec![
            EndpointEvent::resume("2".to_owned()),
            EndpointEvent::add("3".to_owned(), false, 80, "http".to_owned(), pod_address(80), "http".to_owned()),
            EndpointEvent::delete("1".to_owned()),
        ]
    );
    assert_eq!(runtime.known_pod_uids(), &vec!["2".to_owned(), "3".to_owned()]);
}

#[test]
fn discovery_name_and_default_namespace() {
    let d = KubernetesEndpointDiscovery::new("https://10.0.0.1:6443/".to_owned(), None);
    assert_eq!(d.name(), "kubernetes@https://10.0.0.1:6443//default");
    assert_eq!(d.namespace(), "default");
    let d = KubernetesEndpointDiscovery::new("https://k8s/".to_owned(), Some("prod".to_owned()));
    assert_eq!(d.name(), "kubernetes@https://k8s//prod");
    assert_eq!(d.cluster_url(), "https://k8s/");
}

#[test]
fn explicit_urls_need_a_scheme() {
    assert_eq!(explicit_cluster_url("https://10.0.0.1:6443"), Ok("https://10.0.0.1:6443/".to_owned()));
    assert_eq!(
        explicit_cluster_url("10.0.0.1:6443"),
        Err(KubernetesConfigError::MissingScheme { url: "10.0.0.1:6443".to_owned() })
    );
    assert_eq!(
        explicit_cluster_url("http://[::1"),
        Err(KubernetesConfigError::InvalidUrl { url: "http://[::1".to_owned() })
    );
}

#[test]
fn restarts_are_collected_until_the_listing_is_done() {
    let mut buffer = RestartBuffer::new();
    assert_eq!(buffer.accept(WatchEvent::Apply(pod("1", "Running", None))), Some(PodEvent::Applied(pod("1", "Running", None))));
    assert_eq!(buffer.accept(WatchEvent::Init), None);
    assert_eq!(buffer.accept(WatchEvent::InitApply(pod("2", "Running", None))), None);
    assert_eq!(buffer.accept(WatchEvent::InitApply(pod("3", "Pending", None))), None);
    assert_eq!(
        buffer.accept(WatchEvent::InitDone),
        Some(PodEvent::Restarted(vec![pod("2", "Running", None), pod("3", "Pending", None)]))
    );
    assert_eq!(buffer.accept(WatchEvent::InitDone), Some(PodEvent::Restarted(Vec::new())));
    assert_eq!(buffer.accept(WatchEvent::Delete(pod("2", "Running", None))), Some(PodEvent::Deleted(pod("2", "Running", None))));
}

#[test]
fn deleting_a_pod_that_was_never_announced_sends_nothing() {
    let mut runtime = runtime();
    let (events, result) = runtime.handle_pod_event(PodEvent::Applied(pod("3", "Running", Some("80:http:80:http"))));
    assert_eq!(result, Ok(()));
    assert_eq!(events.len(), 2);
    let (events, result) = runtime.handle_pod_event(PodEvent::Deleted(pod("9", "Running", None)));
    assert_eq!(result, Ok(()));
    assert_eq!(events, vec![]);
    assert_eq!(runtime.known_pod_uids(), &vec!["3".to_owned()]);
    let (events, result) = runtime.handle_pod_event(PodEvent::Deleted(pod("3", "Running", None)));
    assert_eq!(result, Ok(()));
    assert_eq!(events, vec![EndpointEvent::delete("3".to_owned())]);
    let (events, _) = runtime.handle_pod_event(PodEvent::Deleted(pod("3", "Running", None)));
    assert_eq!(events, vec![]);
}

#[test]
fn error_messages() {
    assert_eq!(
        PortError::NotAPortNumber { text: "x1".to_owned() }.message(),
        "'x1' is not a port number".to_owned()
    );
    assert_eq!(ServiceStringError::MissingParts.message(), "invalid service string".to_owned());
    assert_eq!(
        KubernetesConfigError::MissingScheme { url: "cluster".to_owned() }.message(),
        "Kubernetes cluster URL must have a scheme component".to_owned()
    );
    assert_eq!(
        KubernetesConfigError::InvalidUrl { url: "a b".to_owned() }.message(),
        "invalid Kubernetes cluster URL: a b".to_owned()
    );
    assert_eq!(
        DiscoveryError::InvalidServiceString {
            service_string: "80:http".to_owned(),
            pod_name: "web".to_owned(),
            uid: "u1".to_owned(),
            error: ServiceStringError::MissingParts,
        }
        .message(),
        "while handling service string '80:http' for pod web (u1): invalid service string".to_owned()
    );
    assert_eq!(
        DiscoveryError::InvalidPodAddress { address: "x".to_owned(), pod_name: "web".to_owned(), uid: "u1".to_owned() }
            .message(),
        "while parsing the address x of pod web (u1)".to_owned()
    );
}
