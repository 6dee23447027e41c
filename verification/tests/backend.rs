use state_proxy::backend::endpoint::{Endpoint, EndpointEvent, EndpointId};
use state_proxy::backend::{PortEvent, Service, ServiceManager, ServiceManagerError};
use state_proxy::net::{IpAddress, SocketAddress};

const TEST_ENDPOINT_DISCOVERY_NAME: &str = "test";

fn address(a: u8, b: u8, c: u8, d: u8, port: u16) -> SocketAddress {
    SocketAddress::new(IpAddress::V4([a, b, c, d]), port)
}

/// A manager with the test discovery task registered, after the given events; also the port
/// events that a listener registered from the start would have received.
fn init(events: Vec<EndpointEvent>) -> (ServiceManager, Vec<PortEvent>) {
    let mut manager = ServiceManager::new();
    manager
        .register_endpoint_discovery(TEST_ENDPOINT_DISCOVERY_NAME.to_owned())
        .unwrap();
    let from = TEST_ENDPOINT_DISCOVERY_NAME.to_owned();
    let mut port_events = Vec::new();
    for event in events {
        port_events.extend(manager.process_event(&from, event));
    }
    (manager, port_events)
}

fn add(uid: &str, is_available: bool, port: u16, ip_last: u8) -> EndpointEvent {
    EndpointEvent::add(
        uid.to_owned(),
        is_available,
        port,
        "http".to_owned(),
        address(10, 0, 0, ip_last, 80),
        "http".to_owned(),
    )
}

fn test_id(uid: &str) -> EndpointId {
    EndpointId::new(TEST_ENDPOINT_DISCOVERY_NAME.to_owned(), uid.to_owned())
}

#[test]
fn can_register_a_endpoint_discovery() {
    let (manager, _) = init(Vec::new());

    assert_eq!(
        manager.registered_endpoint_discovery_names(),
        &vec![TEST_ENDPOINT_DISCOVERY_NAME.to_owned()]
    );
}

#[test]
fn can_add_a_service() {
    let (manager, _) = init(vec![EndpointEvent::add(
        "0".to_owned(),
        true,
        80,
        "http".to_owned(),
        address(10, 0, 0, 1, 80),
        "http".to_owned(),
    )]);

    assert_eq!(
        manager.services(),
        &vec![Service::new(
            80,
            "http".to_owned(),
            vec![(
                test_id("0"),
                Endpoint::new(true, address(10, 0, 0, 1, 80), "http".to_owned())
            )],
        )]
    );
}

#[test]
fn can_add_then_delete_a_service() {
    let (manager, _) = init(vec![
        EndpointEvent::add(
            "0".to_owned(),
            true,
            80,
            "http".to_owned(),
            address(10, 0, 0, 1, 80),
            "http".to_owned(),
        ),
        EndpointEvent::delete("0".to_owned()),
    ]);

    assert!(manager.services().is_empty());
}

#[test]
fn can_add_then_suspend_a_service() {
    let (manager, _) = init(vec![
        EndpointEvent::add(
            "0".to_owned(),
            true,
            80,
            "http".to_owned(),
            address(10, 0, 0, 1, 80),
            "http".to_owned(),
        ),
        EndpointEvent::suspend("0".to_owned()),
    ]);

    assert_eq!(
        manager.services(),
        &vec![Service::new(
            80,
            "http".to_owned(),
            vec![(
                test_id("0"),
                Endpoint::new(false, address(10, 0, 0, 1, 80), "http".to_owned())
            )],
        )]
    );
}

#[test]
fn can_add_then_resume_an_unavailable_service() {
    let (manager, _) = init(vec![
        EndpointEvent::add(
            "0".to_owned(),
            false,
            80,
            "http".to_owned(),
            address(10, 0, 0, 1, 80),
            "http".to_owned(),
        ),
        EndpointEvent::resume("0".to_owned()),
    ]);

    assert_eq!(
        manager.services(),
        &vec![Service::new(
            80,
            "http".to_owned(),
            vec![(
                test_id("0"),
                Endpoint::new(true, address(10, 0, 0, 1, 80), "http".to_owned())
            )],
        )]
    );
}

#[test]
fn sends_open_and_close_port_events() {
    let (_manager, port_events) = init(vec![
        EndpointEvent::add(
            "0".to_owned(),
            false,
            80,
            "http".to_owned(),
            address(10, 0, 0, 1, 80),
            "http".to_owned(),
        ),
        EndpointEvent::delete("0".to_owned()),
    ]);

    assert_eq!(
        port_events.first(),
        Some(&PortEvent::Open {
            port: 80,
            protocol: "http".to_owned(),
        })
    );
    assert_eq!(port_events.get(1), Some(&PortEvent::Close { port: 80 }));
}

#[test]
fn sends_missed_open_events_on_registering_a_sender() {
    let (manager, _) = init(vec![EndpointEvent::add(
        "0".to_owned(),
        false,
        80,
        "http".to_owned(),
        address(10, 0, 0, 1, 80),
        "http".to_owned(),
    )]);

    assert_eq!(
        manager.open_port_events().first(),
        Some(&PortEvent::Open {
            port: 80,
            protocol: "http".to_owned(),
        })
    );
}

#[test]
fn registering_a_discovery_twice_is_refused() {
    let (mut manager, _) = init(Vec::new());
    assert_eq!(
        manager.register_endpoint_discovery("test".to_owned()),
        Err(ServiceManagerError::DiscoveryAlreadyRegistered { name: "test".to_owned() })
    );
    assert_eq!(manager.register_endpoint_discovery("other".to_owned()), Ok(()));
    assert_eq!(
        manager.registered_endpoint_discovery_names(),
        &vec!["test".to_owned(), "other".to_owned()]
    );
}

#[test]
fn adding_an_endpoint_to_an_open_port_sends_no_event() {
    let (manager, port_events) = init(vec![add("0", true, 80, 1), add("1", true, 80, 2)]);
    assert_eq!(
        port_events,
        vec![PortEvent::Open { port: 80, protocol: "http".to_owned() }]
    );
    assert_eq!(manager.services().len(), 1);
    assert_eq!(manager.services()[0].endpoints.len(), 2);
}

#[test]
fn adding_a_known_endpoint_updates_it() {
    let (manager, _) = init(vec![add("0", true, 80, 1), add("0", false, 80, 7)]);
    assert_eq!(
        manager.services()[0].endpoints,
        vec![(test_id("0"), Endpoint::new(false, address(10, 0, 0, 7, 80), "http".to_owned()))]
    );
}

#[test]
fn deleting_one_of_two_endpoints_keeps_the_port_open() {
    let (manager, port_events) = init(vec![
        add("0", true, 80, 1),
        add("1", true, 80, 2),
        EndpointEvent::delete("0".to_owned()),
    ]);
    assert_eq!(port_events.len(), 1);
    assert_eq!(
        manager.services()[0].endpoints,
        vec![(test_id("1"), Endpoint::new(true, address(10, 0, 0, 2, 80), "http".to_owned()))]
    );
}

#[test]
fn deleting_an_unknown_endpoint_changes_nothing() {
    let (manager, port_events) = init(vec![add("0", true, 80, 1), EndpointEvent::delete("9".to_owned())]);
    assert_eq!(port_events.len(), 1);
    assert_eq!(manager.services().len(), 1);
}

#[test]
fn an_endpoint_on_two_ports_is_deleted_from_both() {
    let (manager, port_events) = init(vec![
        add("0", true, 80, 1),
        add("0", true, 443, 1),
        add("1", true, 443, 2),
        EndpointEvent::delete("0".to_owned()),
    ]);
    assert_eq!(
        port_events,
        vec![
            PortEvent::Open { port: 80, protocol: "http".to_owned() },
            PortEvent::Open { port: 443, protocol: "http".to_owned() },
            PortEvent::Close { port: 80 },
        ]
    );
    assert_eq!(manager.services().len(), 1);
    assert_eq!(manager.services()[0].port, 443);
}

#[test]
fn the_same_uid_from_another_discovery_is_another_endpoint() {
    let (mut manager, _) = init(vec![add("0", true, 80, 1)]);
    let events = manager.process_event(&"other".to_owned(), add("0", true, 80, 2));
    assert!(events.is_empty());
    assert_eq!(manager.services()[0].endpoints.len(), 2);
    let events = manager.process_event(&"other".to_owned(), EndpointEvent::delete("0".to_owned()));
    assert!(events.is_empty());
    assert_eq!(manager.services()[0].endpoints[0].0, test_id("0"));
}

#[test]
fn get_endpoint_for_goes_round_from_the_index() {
    let (manager, _) = init(vec![
        add("0", true, 80, 1),
        add("1", false, 80, 2),
        add("2", true, 80, 3),
        add("3", false, 80, 4),
    ]);
    let http = "http".to_owned();
    assert_eq!(manager.get_endpoint_for(80, 0), Some((address(10, 0, 0, 1, 80), http.clone())));
    assert_eq!(manager.get_endpoint_for(80, 1), Some((address(10, 0, 0, 3, 80), http.clone())));
    assert_eq!(manager.get_endpoint_for(80, 2), Some((address(10, 0, 0, 3, 80), http.clone())));
    // Starting after the last available endpoint wraps round to the first one.
    assert_eq!(manager.get_endpoint_for(80, 3), Some((address(10, 0, 0, 1, 80), http.clone())));
    assert_eq!(manager.get_endpoint_for(80, 7), Some((address(10, 0, 0, 1, 80), http.clone())));
    assert_eq!(manager.get_endpoint_for(443, 0), None);
}

#[test]
fn get_endpoint_for_finds_nothing_when_all_are_suspended() {
    let (manager, _) = init(vec![add("0", false, 80, 1), add("1", false, 80, 2)]);
    assert_eq!(manager.get_endpoint_for(80, 0), None);
    assert_eq!(manager.get_endpoint_for(80, 1), None);
}

#[test]
fn suspend_then_resume_restores_the_services() {
    let (manager, _) = init(vec![add("0", true, 80, 1), add("1", true, 80, 2)]);
    let (after, _) = init(vec![
        add("0", true, 80, 1),
        add("1", true, 80, 2),
        EndpointEvent::suspend("0".to_owned()),
        EndpointEvent::resume("0".to_owned()),
    ]);
    assert_eq!(manager.services(), after.services());
}

#[test]
fn open_port_events_lists_every_served_port() {
    let (manager, _) = init(vec![add("0", true, 80, 1), add("1", true, 8080, 2)]);
    assert_eq!(
        manager.open_port_events(),
        vec![
            PortEvent::Open { port: 80, protocol: "http".to_owned() },
            PortEvent::Open { port: 8080, protocol: "http".to_owned() },
        ]
    );
}

#[test]
fn endpoint_id_displays_name_and_uid() {
    assert_eq!(test_id("abc").display(), "(test, abc)");
}
