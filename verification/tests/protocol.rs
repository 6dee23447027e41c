use state_proxy::backend::PortEvent;
use state_proxy::cli::arg_is_number;
use state_proxy::http::{HttpProtocol, HttpServer};
use state_proxy::matchmaking::{next_connection_index, MatchmakerAction, Matchmaker, MatchmakingError};
use state_proxy::net::{IpAddress, SocketAddress};
use state_proxy::protocol::proxy::endpoint::{
    buffer_fill_complete, buffer_fill_step, check_buffered_size, client_hello, effective_channel_id,
    prepare_client_message, process_hello_reply, ChannelClientState, ChannelServerState, ChannelState,
    ClientMessageV0, EndpointProtocol, Error, SerializationFormat, ServerMessageV0, TakeChannelIdResult,
};
use state_proxy::protocol::proxy::ProxyProtocolServer;
use state_proxy::protocol::{AnyProtocol, Error as RegistryError, Protocol, ProtocolCapabilities, ProtocolRegistry};
use state_proxy::state::ConnectionMap;

fn caps(multiplexing: u32, message_boundaries: bool) -> ProtocolCapabilities {
    ProtocolCapabilities { multiplexing, message_boundaries, ..ProtocolCapabilities::default() }
}

#[test]
fn default_capabilities() {
    assert_eq!(
        ProtocolCapabilities::default(),
        ProtocolCapabilities {
            client: false,
            server: false,
            disasm: false,
            message_boundaries: false,
            multiplexing: 1,
            sockets: false
        }
    );
}

#[test]
fn registry_refuses_a_second_protocol_of_the_same_name() {
    let mut registry = ProtocolRegistry::new();
    assert_eq!(registry.register(HttpProtocol::new()), Ok(()));
    assert_eq!(
        registry.register(HttpProtocol::new()),
        Err(RegistryError::DuplicateRegistration { name: "http".to_owned() })
    );
    assert_eq!(registry.get(&"http".to_owned()).map(|p| p.name().clone()), Some("http".to_owned()));
    assert!(registry.get(&"ssh".to_owned()).is_none());
}

#[test]
fn endpoint_protocol_multiplexes_over_a_single_channel_base() {
    let p = EndpointProtocol::new(&"tcp".to_owned(), &caps(1, false));
    assert_eq!(p.name(), "endpoint protocol over tcp");
    let c = p.capabilities();
    assert_eq!(c.multiplexing, u32::MAX);
    assert!(c.client && c.server && c.message_boundaries && !c.disasm && !c.sockets);
    let p = EndpointProtocol::new(&"ssh".to_owned(), &caps(16, true));
    assert_eq!(p.capabilities().multiplexing, 16);
}

#[test]
fn http_protocol_and_server() {
    assert_eq!(HttpProtocol::new().name(), "http");
    assert_eq!(HttpProtocol::new().capabilities(), ProtocolCapabilities::default());
    assert_eq!(HttpServer::new(), HttpServer);
}

#[test]
fn channel_ids_are_taken_and_set() {
    let mut m = ClientMessageV0::DataEnd { channel_id: Some(3) };
    assert_eq!(m.take_channel_id(), TakeChannelIdResult::Id(3));
    assert_eq!(m, ClientMessageV0::DataEnd { channel_id: None });
    assert_eq!(m.take_channel_id(), TakeChannelIdResult::Missing);
    m.set_channel_id(9);
    assert_eq!(m, ClientMessageV0::DataEnd { channel_id: Some(9) });
    let mut hello = client_hello();
    assert_eq!(hello.take_channel_id(), TakeChannelIdResult::Uneeded);
    hello.set_channel_id(4);
    assert_eq!(hello, client_hello());
    let mut s = ServerMessageV0::CloseSocket { channel_id: Some(2), socket_id: 5 };
    assert_eq!(s.take_channel_id(), TakeChannelIdResult::Id(2));
    s.set_channel_id(7);
    assert_eq!(s, ServerMessageV0::CloseSocket { channel_id: Some(7), socket_id: 5 });
    assert_eq!(s.name(), "CloseSocket");
}

#[test]
fn prepared_messages_carry_their_channel_where_the_base_cannot() {
    let from = SocketAddress::new(IpAddress::V4([127, 0, 0, 1]), 9);
    let m = ClientMessageV0::NewChannel { channel_id: Some(4), from };
    assert_eq!(
        prepare_client_message(m, &caps(1, true)),
        (ClientMessageV0::NewChannel { channel_id: Some(4), from }, None)
    );
    let m = ClientMessageV0::NewChannel { channel_id: Some(4), from };
    assert_eq!(
        prepare_client_message(m, &caps(8, true)),
        (ClientMessageV0::NewChannel { channel_id: None, from }, Some(4))
    );
    assert_eq!(prepare_client_message(client_hello(), &caps(8, true)), (client_hello(), None));
}

#[test]
fn hello_replies() {
    assert_eq!(
        process_hello_reply(&ServerMessageV0::Hello { version: 0, serialization_format: "Json".to_owned() }),
        Ok(SerializationFormat::Json)
    );
    assert_eq!(
        process_hello_reply(&ServerMessageV0::Hello { version: 1, serialization_format: "Json".to_owned() }),
        Err(Error::WrongVersion { expected: 0, received: 1 })
    );
    assert_eq!(
        process_hello_reply(&ServerMessageV0::Hello { version: 0, serialization_format: "Cbor".to_owned() }),
        Err(Error::UnknownSerializationFormat { expected: vec!["Json".to_owned()], received: "Cbor".to_owned() })
    );
    assert_eq!(
        process_hello_reply(&ServerMessageV0::Accept { channel_id: Some(1) }),
        Err(Error::WrongMessage { expected: vec!["Hello"], received: "Accept" })
    );
    assert_eq!(
        client_hello(),
        ClientMessageV0::Hello { version: 0, serialization_formats: vec!["Json".to_owned()] }
    );
    assert_eq!(SerializationFormat::Json.name(), "Json");
    assert_eq!(SerializationFormat::from_name("json"), None);
}

#[test]
fn buffer_limits() {
    assert_eq!(check_buffered_size(1024, &caps(1, true)), Ok(()));
    assert_eq!(check_buffered_size(1025, &caps(1, true)), Err(Error::MessageTooLarge));
    assert_eq!(check_buffered_size(1025, &caps(1, false)), Ok(()));
    assert_eq!(buffer_fill_step(1000, 24), (1024, true));
    assert_eq!(buffer_fill_step(1000, 25), (1025, false));
    assert_eq!(buffer_fill_step(10, 0), (10, false));
    assert!(buffer_fill_complete(1024));
    assert!(!buffer_fill_complete(1025));
    assert_eq!(effective_channel_id(&caps(1, true), Some(3)), None);
    assert_eq!(effective_channel_id(&caps(2, true), Some(3)), Some(3));
}

#[test]
fn new_channels_wait_for_acceptance() {
    assert_eq!(
        ChannelState::new(),
        ChannelState { client: ChannelClientState::WaitingForAcceptance, server: ChannelServerState::Idle }
    );
}

#[test]
fn matchmaker_registration_and_port_events() {
    let mut m = Matchmaker::new();
    assert_eq!(m.register_server("http".to_owned()), Ok(()));
    assert_eq!(
        m.register_server("http".to_owned()),
        Err(MatchmakingError::ServerAlreadyRegistered { protocol: "http".to_owned() })
    );
    assert_eq!(m.register_client("http".to_owned()), Ok(()));
    assert_eq!(
        m.register_client("http".to_owned()),
        Err(MatchmakingError::ClientAlreadyRegistered { protocol: "http".to_owned() })
    );
    assert_eq!(
        m.handle_port_event(&PortEvent::Open { port: 80, protocol: "http".to_owned() }),
        Ok(MatchmakerAction::Listen { port: 80, protocol: "http".to_owned() })
    );
    assert_eq!(
        m.handle_port_event(&PortEvent::Open { port: 22, protocol: "ssh".to_owned() }),
        Err(MatchmakingError::UnknownProtocol { protocol: "ssh".to_owned() })
    );
    assert_eq!(
        m.handle_port_event(&PortEvent::Close { port: 80 }),
        Ok(MatchmakerAction::Mute { port: 80, protocol: "http".to_owned() })
    );
    assert_eq!(m.handle_port_event(&PortEvent::Close { port: 80 }), Ok(MatchmakerAction::Nothing));
    assert_eq!(
        m.handle_port_event(&PortEvent::Open { port: 80, protocol: "http".to_owned() }),
        Ok(MatchmakerAction::Listen { port: 80, protocol: "http".to_owned() })
    );
    assert_eq!(next_connection_index(0), 1);
    assert_eq!(next_connection_index(usize::MAX), 0);
}

#[test]
fn connection_ids_are_handed_out_in_order() {
    let mut map: ConnectionMap<&str> = ConnectionMap::new();
    assert_eq!(map.register("a"), 0);
    assert_eq!(map.register("b"), 1);
    assert_eq!(map.register("c"), 2);
}

#[test]
fn proxy_server_and_numbers() {
    let _server = ProxyProtocolServer::new(5u8);
    assert_eq!(arg_is_number("12"), Ok(()));
    assert_eq!(arg_is_number(""), Ok(()));
    assert_eq!(arg_is_number("-1"), Err("must be a number".to_owned()));
    assert_eq!(arg_is_number("4"), Ok(()));
    assert_eq!(arg_is_number("1x"), Err("must be a number".to_owned()));
}

#[test]
fn a_registered_protocol_survives_later_registrations() {
    let mut registry: ProtocolRegistry<AnyProtocol> = ProtocolRegistry::new();
    assert!(registry.get(&"http".to_owned()).is_none());
    assert_eq!(registry.register(AnyProtocol::Http(HttpProtocol::new())), Ok(()));
    let endpoint = EndpointProtocol::new(&"tcp".to_owned(), &caps(1, false));
    assert_eq!(registry.register(AnyProtocol::Endpoint(endpoint)), Ok(()));
    assert!(registry.register(AnyProtocol::Http(HttpProtocol::new())).is_err());
    assert_eq!(
        registry.get(&"endpoint protocol over tcp".to_owned()).map(|p| p.name().clone()),
        Some("endpoint protocol over tcp".to_owned())
    );
    assert_eq!(registry.get(&"http".to_owned()).map(|p| p.name().clone()), Some("http".to_owned()));
    assert!(registry.get(&"smtp".to_owned()).is_none());
}

#[test]
fn matchmaking_and_registry_messages() {
    assert_eq!(
        MatchmakingError::UnknownProtocol { protocol: "ssh".to_owned() }.message(),
        "unknown protocol: ssh".to_owned()
    );
    assert_eq!(
        MatchmakingError::ServerAlreadyRegistered { protocol: "http".to_owned() }.message(),
        "a server for the http protocol is already registered".to_owned()
    );
    assert_eq!(
        MatchmakingError::ClientAlreadyRegistered { protocol: "http".to_owned() }.message(),
        "a client for the http protocol is already registered".to_owned()
    );
    assert_eq!(
        RegistryError::DuplicateRegistration { name: "http".to_owned() }.message(),
        "Protocol 'http' is already registered".to_owned()
    );
}
