//! The endpoint protocol. This protocol is used to communicate with endpoints over a base
//! protocol requested by the endpoint. This base protocol can range from raw TCP to SSH and
//! anything in between.
//!
//! The endpoint protocol defines a set of messages that allow not only communication with the
//! proxied client, but also storage of state in the proxy and connection multiplexing. This
//! module holds the protocol's decisions: its capabilities, the messages and their channel
//! identifiers, the version negotiation and the limits on buffered data.

use crate::net::SocketAddress;
use crate::protocol::{Protocol, ProtocolCapabilities};
use crate::text::same_text;
use vstd::prelude::*;
use vstd::string::*;

verus! {

/// The version of the endpoint protocol that this implementation speaks.
pub const ENDPOINT_PROTOCOL_VERSION: u32 = 0;

/// The largest serialized message that is accepted.
pub const MAX_MESSAGE_BINARY_SIZE: usize = 1024;

/// The size of a message read buffer: one byte more than the largest message, to notice one
/// that is too large.
pub const MESSAGE_BUFFER_SIZE: usize = 1025;

/// An error of the endpoint protocol.
#[derive(Debug, PartialEq, Eq)]
pub enum Error {
    /// The message is incomplete after reading `read` bytes.
    IncompleteMessage { read: usize },
    /// The message is too large to deserialize.
    MessageTooLarge,
    /// Only a single client or server can be created from an `EndpointProtocol`.
    MoreThanOneClient,
    /// The server created a new channel.
    ServerCreatedChannel { channel_id: u32 },
    /// A message came for an unknown channel.
    UnknownChannelId { channel_id: u32, message_name: &'static str },
    /// The server selected a serialization format that is not known.
    UnknownSerializationFormat { expected: Vec<String>, received: String },
    /// A message of another kind was expected.
    WrongMessage { expected: Vec<&'static str>, received: &'static str },
    /// The server speaks another version of the protocol.
    WrongVersion { expected: u32, received: u32 },
}

// ---------------------------------------------------------------------------------------------
// The protocol
// ---------------------------------------------------------------------------------------------

/// The endpoint protocol over a base protocol.
pub struct EndpointProtocol {
    name: String,
    multiplexing: u32,
    sockets: bool,
}

/// The number of channels the endpoint protocol offers over a base protocol that offers
/// `base_multiplexing`: the protocol multiplexes by itself over a base that does not.
pub open spec fn endpoint_multiplexing(base_multiplexing: u32) -> u32 {
    if base_multiplexing == 1 {
        u32::MAX
    } else {
        base_multiplexing
    }
}

impl EndpointProtocol {
    /// The protocol offers at least one channel per connection.
    #[verifier::type_invariant]
    spec fn multiplexing_positive(&self) -> bool {
        self.multiplexing >= 1
    }

    /// The endpoint protocol over the base protocol `base_name` with `base_capabilities`.
    pub fn new(base_name: &String, base_capabilities: &ProtocolCapabilities) -> (r: Self)
        requires
            base_capabilities.wf(),
        ensures
            r.spec_name() == "endpoint protocol over "@ + base_name@,
            r.capabilities_spec() == (ProtocolCapabilities {
                client: true,
                server: true,
                disasm: false,
                message_boundaries: true,
                multiplexing: endpoint_multiplexing(base_capabilities.multiplexing),
                sockets: false,
            }),
    {
        let mut name = String::from_str("endpoint protocol over ");
        name.append(base_name.as_str());
        let multiplexing = if base_capabilities.multiplexing == 1 {
            u32::MAX
        } else {
            base_capabilities.multiplexing
        };
        EndpointProtocol { name, multiplexing, sockets: false }
    }

    /// The capabilities, as the contracts see them.
    pub closed spec fn capabilities_spec(&self) -> ProtocolCapabilities {
        ProtocolCapabilities {
            client: true,
            server: true,
            disasm: false,
            message_boundaries: true,
            multiplexing: self.multiplexing,
            sockets: self.sockets,
        }
    }
}

impl Protocol for EndpointProtocol {
    closed spec fn spec_name(&self) -> Seq<char> {
        self.name@
    }

    fn name(&self) -> (r: &String) {
        &self.name
    }

    /// A client and a server are available; disassembly never is; messages have boundaries.
    fn capabilities(&self) -> (r: ProtocolCapabilities)
        ensures
            r == self.capabilities_spec(),
    {
        proof {
            use_type_invariant(self);
        }
        ProtocolCapabilities {
            client: true,
            server: true,
            disasm: false,
            message_boundaries: true,
            multiplexing: self.multiplexing,
            sockets: self.sockets,
        }
    }
}

/// The base connection of an endpoint protocol, until the protocol's one client or server takes
/// it.
pub struct BaseConnectionSlot<C> {
    connection: Option<C>,
}

impl<C> BaseConnectionSlot<C> {
    /// A slot that holds `connection`.
    pub fn new(connection: C) -> (r: Self)
        ensures
            r.spec_connection() == Some(connection),
    {
        BaseConnectionSlot { connection: Some(connection) }
    }

    /// The connection still in the slot, if any.
    pub closed spec fn spec_connection(&self) -> Option<C> {
        self.connection
    }

    /// Take the base connection to build the protocol's client or server on it: only one can be
    /// built.
    pub fn take(&mut self) -> (r: Result<C, Error>)
        ensures
            final(self).spec_connection() is None,
            match old(self).spec_connection() {
                Some(c) => r == Ok::<C, Error>(c),
                None => r matches Err(Error::MoreThanOneClient),
            },
    {
        match self.connection.take() {
            Some(c) => Ok(c),
            None => Err(Error::MoreThanOneClient),
        }
    }
}

/// The channel a received message belongs to: none over a base protocol without multiplexing.
pub fn effective_channel_id(base_capabilities: &ProtocolCapabilities, message_channel_id: Option<u32>) -> (r: Option<u32>)
    ensures
        r == if base_capabilities.multiplexing == 1 {
            None
        } else {
            message_channel_id
        },
{
    if base_capabilities.multiplexing == 1 {
        None
    } else {
        message_channel_id
    }
}

/// Check the size of the data buffered for a message: over a base protocol with message
/// boundaries, more than [`MAX_MESSAGE_BINARY_SIZE`] bytes is refused.
pub fn check_buffered_size(buffered: usize, base_capabilities: &ProtocolCapabilities) -> (r: Result<(), Error>)
    ensures
        r matches Err(Error::MessageTooLarge) <==> (buffered > MAX_MESSAGE_BINARY_SIZE
            && base_capabilities.message_boundaries),
        r is Ok <==> !(buffered > MAX_MESSAGE_BINARY_SIZE && base_capabilities.message_boundaries),
{
    if buffered > MAX_MESSAGE_BINARY_SIZE && base_capabilities.message_boundaries {
        Err(Error::MessageTooLarge)
    } else {
        Ok(())
    }
}

/// One read into a message buffer that held `in_buffer` bytes brought `read` more: the new
/// count, and whether reading goes on, which it does until nothing more comes or the buffer
/// holds more than a message can.
pub fn buffer_fill_step(in_buffer: usize, read: usize) -> (r: (usize, bool))
    requires
        in_buffer + read <= MESSAGE_BUFFER_SIZE,
    ensures
        r.0 == in_buffer + read,
        r.1 == (read != 0 && in_buffer + read <= MAX_MESSAGE_BINARY_SIZE),
{
    let total = in_buffer + read;
    (total, read != 0 && total <= MAX_MESSAGE_BINARY_SIZE)
}

/// Whether a buffer filled to `in_buffer` bytes holds all the data there was: it does when it
/// was not filled to the brim.
pub fn buffer_fill_complete(in_buffer: usize) -> (r: bool)
    ensures
        r == (in_buffer < MESSAGE_BUFFER_SIZE),
{
    in_buffer < MESSAGE_BUFFER_SIZE
}

// ---------------------------------------------------------------------------------------------
// Serialization formats
// ---------------------------------------------------------------------------------------------

/// The formats messages can be serialized in.
#[derive(Clone, Copy, Debug, PartialEq, Eq)]
pub enum SerializationFormat {
    Json,
}

impl SerializationFormat {
    /// The name of the format.
    pub fn name(self) -> (r: &'static str)
        ensures
            r@ == "Json"@,
    {
        match self {
            SerializationFormat::Json => "Json",
        }
    }

    /// The format of the given name.
    pub fn from_name(name: &str) -> (r: Option<SerializationFormat>)
        ensures
            r == if name@ == "Json"@ {
                Some(SerializationFormat::Json)
            } else {
                None::<SerializationFormat>
            },
    {
        if same_text(name, "Json") {
            Some(SerializationFormat::Json)
        } else {
            None
        }
    }

    /// The names of all formats, as offered to the server.
    pub fn all_names() -> (r: Vec<String>)
        ensures
            r@.len() == 1,
            r@[0]@ == "Json"@,
    {
        let mut r: Vec<String> = Vec::new();
        r.push(String::from_str("Json"));
        r
    }
}

// ---------------------------------------------------------------------------------------------
// Channel state
// ---------------------------------------------------------------------------------------------

/// What the server side of a channel is doing.
#[derive(Debug, PartialEq, Eq)]
pub enum ChannelServerState {
    Idle,
    StartReceivingData { size: Option<u64> },
    ReceivingChunk { total_size: Option<u64>, chunk_size: Option<u64>, progress: u64 },
    StartReceivingSocketData { socket_id: u32, size: Option<u64> },
    ReceivingSocketChunk { socket_id: u32, total_size: Option<u64>, chunk_size: Option<u64>, progress: u64 },
}

/// What the client side of a channel is doing.
#[derive(Debug, PartialEq, Eq)]
pub enum ChannelClientState {
    WaitingForAcceptance,
    Idle,
    StartReceivingData { size: Option<u64> },
    ReceivingChunk { total_size: Option<u64>, chunk_size: Option<u64>, progress: u64 },
    StartReceivingSocketData { socket_id: u32, size: Option<u64> },
    ReceivingSocketChunk { socket_id: u32, total_size: Option<u64>, chunk_size: Option<u64>, progress: u64 },
}

/// The state of one channel.
#[derive(Debug, PartialEq, Eq)]
pub struct ChannelState {
    pub client: ChannelClientState,
    pub server: ChannelServerState,
}

impl ChannelState {
    /// A new channel: the client waits for the server to accept it, the server is idle.
    pub fn new() -> (r: Self)
        ensures
            r == (ChannelState { client: ChannelClientState::WaitingForAcceptance, server: ChannelServerState::Idle }),
    {
        Self::default()
    }
}

impl Default for ChannelState {
    fn default() -> (r: Self)
        ensures
            r == (ChannelState { client: ChannelClientState::WaitingForAcceptance, server: ChannelServerState::Idle }),
    {
        ChannelState { client: ChannelClientState::WaitingForAcceptance, server: ChannelServerState::Idle }
    }
}


// ---------------------------------------------------------------------------------------------
// Messages
// ---------------------------------------------------------------------------------------------

/// What taking the channel identifier out of a message gave.
#[derive(Debug, PartialEq, Eq)]
pub enum TakeChannelIdResult {
    /// The identifier.
    Id(u32),
    /// The message has no channel.
    Uneeded,
    /// The message should have an identifier and has none.
    Missing,
}

/// Take the identifier out of a channel identifier field.
fn take_id(channel_id: &mut Option<u32>) -> (r: TakeChannelIdResult)
    ensures
        match *old(channel_id) {
            Some(id) => r == TakeChannelIdResult::Id(id) && *final(channel_id) == None::<u32>,
            None => r == TakeChannelIdResult::Missing && *final(channel_id) == None::<u32>,
        },
{
    match channel_id.take() {
        Some(id) => TakeChannelIdResult::Id(id),
        None => TakeChannelIdResult::Missing,
    }
}

/// A message from the endpoint to the proxy.
#[derive(Debug, PartialEq, Eq)]
pub enum ServerMessageV0 {
    Hello { version: u32, serialization_format: String },
    Accept { channel_id: Option<u32> },
    Deny { channel_id: Option<u32>, error: String },
    DataStart { channel_id: Option<u32>, size: Option<u64>, state: Option<Vec<u8>> },
    DataChunk { channel_id: Option<u32>, size: u64, state: Option<Vec<u8>> },
    DataEnd { channel_id: Option<u32>, state: Option<Vec<u8>> },
    SetState { channel_id: Option<u32>, state: Option<Vec<u8>> },
    OpenSocket { channel_id: Option<u32>, socket_id: u32, protocol: String, address: String },
    SocketDataStart { channel_id: Option<u32>, socket_id: u32, size: Option<u64> },
    CloseSocket { channel_id: Option<u32>, socket_id: u32 },
}

impl ServerMessageV0 {
    /// The name of the message's kind.
    pub fn name(&self) -> (r: &'static str)
        ensures
            r@ == self.spec_kind_name(),
    {
        match self {
            ServerMessageV0::Hello { .. } => "Hello",
            ServerMessageV0::Accept { .. } => "Accept",
            ServerMessageV0::Deny { .. } => "Deny",
            ServerMessageV0::DataStart { .. } => "DataStart",
            ServerMessageV0::DataChunk { .. } => "DataChunk",
            ServerMessageV0::DataEnd { .. } => "DataEnd",
            ServerMessageV0::SetState { .. } => "SetState",
            ServerMessageV0::OpenSocket { .. } => "OpenSocket",
            ServerMessageV0::SocketDataStart { .. } => "SocketDataStart",
            ServerMessageV0::CloseSocket { .. } => "CloseSocket",
        }
    }

    /// The name of the message's kind, as the contracts see it.
    pub open spec fn spec_kind_name(&self) -> Seq<char> {
        match self {
            ServerMessageV0::Hello { .. } => "Hello"@,
            ServerMessageV0::Accept { .. } => "Accept"@,
            ServerMessageV0::Deny { .. } => "Deny"@,
            ServerMessageV0::DataStart { .. } => "DataStart"@,
            ServerMessageV0::DataChunk { .. } => "DataChunk"@,
            ServerMessageV0::DataEnd { .. } => "DataEnd"@,
            ServerMessageV0::SetState { .. } => "SetState"@,
            ServerMessageV0::OpenSocket { .. } => "OpenSocket"@,
            ServerMessageV0::SocketDataStart { .. } => "SocketDataStart"@,
            ServerMessageV0::CloseSocket { .. } => "CloseSocket"@,
        }
    }

    /// The channel identifier field: `None` for a `Hello`, which has none, else the field.
    pub open spec fn channel_field(&self) -> Option<Option<u32>> {
        match self {
            ServerMessageV0::Hello { .. } => None,
            ServerMessageV0::Accept { channel_id, .. } => Some(*channel_id),
            ServerMessageV0::Deny { channel_id, .. } => Some(*channel_id),
            ServerMessageV0::DataStart { channel_id, .. } => Some(*channel_id),
            ServerMessageV0::DataChunk { channel_id, .. } => Some(*channel_id),
            ServerMessageV0::DataEnd { channel_id, .. } => Some(*channel_id),
            ServerMessageV0::SetState { channel_id, .. } => Some(*channel_id),
            ServerMessageV0::OpenSocket { channel_id, .. } => Some(*channel_id),
            ServerMessageV0::SocketDataStart { channel_id, .. } => Some(*channel_id),
            ServerMessageV0::CloseSocket { channel_id, .. } => Some(*channel_id),
        }
    }

    /// The message with its channel identifier field set to `channel_id`; a `Hello` is unchanged.
    pub open spec fn with_channel_field(self, channel_id: Option<u32>) -> Self {
        match self {
            ServerMessageV0::Hello { .. } => self,
            ServerMessageV0::Accept { .. } => ServerMessageV0::Accept { channel_id },
            ServerMessageV0::Deny { error, .. } => ServerMessageV0::Deny { channel_id, error },
            ServerMessageV0::DataStart { size, state, .. } => ServerMessageV0::DataStart { channel_id, size, state },
            ServerMessageV0::DataChunk { size, state, .. } => ServerMessageV0::DataChunk { channel_id, size, state },
            ServerMessageV0::DataEnd { state, .. } => ServerMessageV0::DataEnd { channel_id, state },
            ServerMessageV0::SetState { state, .. } => ServerMessageV0::SetState { channel_id, state },
            ServerMessageV0::OpenSocket { socket_id, protocol, address, .. } => ServerMessageV0::OpenSocket { channel_id, socket_id, protocol, address },
            ServerMessageV0::SocketDataStart { socket_id, size, .. } => ServerMessageV0::SocketDataStart { channel_id, socket_id, size },
            ServerMessageV0::CloseSocket { socket_id, .. } => ServerMessageV0::CloseSocket { channel_id, socket_id },
        }
    }

    /// Whether the message should name its channel and does not.
    pub fn channel_id_missing(&self) -> (r: bool)
        ensures
            r == (self.channel_field() == Some(None::<u32>)),
    {
        match self {
            Self::Hello { .. } => false,
            Self::Accept { channel_id, .. } => channel_id.is_none(),
            Self::Deny { channel_id, .. } => channel_id.is_none(),
            Self::DataStart { channel_id, .. } => channel_id.is_none(),
            Self::DataChunk { channel_id, .. } => channel_id.is_none(),
            Self::DataEnd { channel_id, .. } => channel_id.is_none(),
            Self::SetState { channel_id, .. } => channel_id.is_none(),
            Self::OpenSocket { channel_id, .. } => channel_id.is_none(),
            Self::SocketDataStart { channel_id, .. } => channel_id.is_none(),
            Self::CloseSocket { channel_id, .. } => channel_id.is_none(),
        }
    }

    /// Take the channel identifier out of the message.
    pub fn take_channel_id(&mut self) -> (r: TakeChannelIdResult)
        ensures
            match old(self).channel_field() {
                None => r == TakeChannelIdResult::Uneeded && *final(self) == *old(self),
                Some(Some(id)) => r == TakeChannelIdResult::Id(id) && *final(self) == old(self).with_channel_field(None),
                Some(None) => r == TakeChannelIdResult::Missing && *final(self) == *old(self),
            },
    {
        match self {
            ServerMessageV0::Hello { .. } => TakeChannelIdResult::Uneeded,
            ServerMessageV0::Accept { channel_id, .. } => take_id(channel_id),
            ServerMessageV0::Deny { channel_id, .. } => take_id(channel_id),
            ServerMessageV0::DataStart { channel_id, .. } => take_id(channel_id),
            ServerMessageV0::DataChunk { channel_id, .. } => take_id(channel_id),
            ServerMessageV0::DataEnd { channel_id, .. } => take_id(channel_id),
            ServerMessageV0::SetState { channel_id, .. } => take_id(channel_id),
            ServerMessageV0::OpenSocket { channel_id, .. } => take_id(channel_id),
            ServerMessageV0::SocketDataStart { channel_id, .. } => take_id(channel_id),
            ServerMessageV0::CloseSocket { channel_id, .. } => take_id(channel_id),
        }
    }

    /// Set the channel identifier of the message; a `Hello` has none.
    pub fn set_channel_id(&mut self, new_channel_id: u32)
        ensures
            *final(self) == old(self).with_channel_field(Some(new_channel_id)),
    {
        match self {
            ServerMessageV0::Hello { .. } => {},
            ServerMessageV0::Accept { channel_id, .. } => {
                *channel_id = Some(new_channel_id);
            },
            ServerMessageV0::Deny { channel_id, .. } => {
                *channel_id = Some(new_channel_id);
            },
            ServerMessageV0::DataStart { channel_id, .. } => {
                *channel_id = Some(new_channel_id);
            },
            ServerMessageV0::DataChunk { channel_id, .. } => {
                *channel_id = Some(new_channel_id);
            },
            ServerMessageV0::DataEnd { channel_id, .. } => {
                *channel_id = Some(new_channel_id);
            },
            ServerMessageV0::SetState { channel_id, .. } => {
                *channel_id = Some(new_channel_id);
            },
            ServerMessageV0::OpenSocket { channel_id, .. } => {
                *channel_id = Some(new_channel_id);
            },
            ServerMessageV0::SocketDataStart { channel_id, .. } => {
                *channel_id = Some(new_channel_id);
            },
            ServerMessageV0::CloseSocket { channel_id, .. } => {
                *channel_id = Some(new_channel_id);
            },
        }
    }
}

/// A message from the proxy to the endpoint.
#[derive(Debug, PartialEq, Eq)]
pub enum ClientMessageV0 {
    Hello { version: u32, serialization_formats: Vec<String> },
    NewChannel { channel_id: Option<u32>, from: SocketAddress },
    RecoverChannel { channel_id: Option<u32>, from: SocketAddress, state: Vec<u8> },
    CloseChannel { channel_id: Option<u32>, error: Option<String> },
    DataStart { channel_id: Option<u32>, size: Option<u64> },
    DataChunk { channel_id: Option<u32>, size: Option<u64> },
    DataEnd { channel_id: Option<u32> },
    SocketOpened { channel_id: Option<u32>, socket_id: u32 },
    SocketNotOpened { channel_id: Option<u32>, socket_id: u32, error: String },
    SocketError { channel_id: Option<u32>, socket_id: u32, error: String },
    SocketDataStart { channel_id: Option<u32>, socket_id: u32, size: Option<u64> },
    SocketClosed { channel_id: Option<u32>, socket_id: u32 },
}

impl ClientMessageV0 {
    /// The name of the message's kind.
    pub fn name(&self) -> (r: &'static str)
        ensures
            r@ == self.spec_kind_name(),
    {
        match self {
            ClientMessageV0::Hello { .. } => "Hello",
            ClientMessageV0::NewChannel { .. } => "NewChannel",
            ClientMessageV0::RecoverChannel { .. } => "RecoverChannel",
            ClientMessageV0::CloseChannel { .. } => "CloseChannel",
            ClientMessageV0::DataStart { .. } => "DataStart",
            ClientMessageV0::DataChunk { .. } => "DataChunk",
            ClientMessageV0::DataEnd { .. } => "DataEnd",
            ClientMessageV0::SocketOpened { .. } => "SocketOpened",
            ClientMessageV0::SocketNotOpened { .. } => "SocketNotOpened",
            ClientMessageV0::SocketError { .. } => "SocketError",
            ClientMessageV0::SocketDataStart { .. } => "SocketDataStart",
            ClientMessageV0::SocketClosed { .. } => "SocketClosed",
        }
    }

    /// The name of the message's kind, as the contracts see it.
    pub open spec fn spec_kind_name(&self) -> Seq<char> {
        match self {
            ClientMessageV0::Hello { .. } => "Hello"@,
            ClientMessageV0::NewChannel { .. } => "NewChannel"@,
            ClientMessageV0::RecoverChannel { .. } => "RecoverChannel"@,
            ClientMessageV0::CloseChannel { .. } => "CloseChannel"@,
            ClientMessageV0::DataStart { .. } => "DataStart"@,
            ClientMessageV0::DataChunk { .. } => "DataChunk"@,
            ClientMessageV0::DataEnd { .. } => "DataEnd"@,
            ClientMessageV0::SocketOpened { .. } => "SocketOpened"@,
            ClientMessageV0::SocketNotOpened { .. } => "SocketNotOpened"@,
            ClientMessageV0::SocketError { .. } => "SocketError"@,
            ClientMessageV0::SocketDataStart { .. } => "SocketDataStart"@,
            ClientMessageV0::SocketClosed { .. } => "SocketClosed"@,
        }
    }

    /// The channel identifier field: `None` for a `Hello`, which has none, else the field.
    pub open spec fn channel_field(&self) -> Option<Option<u32>> {
        match self {
            ClientMessageV0::Hello { .. } => None,
            ClientMessageV0::NewChannel { channel_id, .. } => Some(*channel_id),
            ClientMessageV0::RecoverChannel { channel_id, .. } => Some(*channel_id),
            ClientMessageV0::CloseChannel { channel_id, .. } => Some(*channel_id),
            ClientMessageV0::DataStart { channel_id, .. } => Some(*channel_id),
            ClientMessageV0::DataChunk { channel_id, .. } => Some(*channel_id),
            ClientMessageV0::DataEnd { channel_id, .. } => Some(*channel_id),
            ClientMessageV0::SocketOpened { channel_id, .. } => Some(*channel_id),
            ClientMessageV0::SocketNotOpened { channel_id, .. } => Some(*channel_id),
            ClientMessageV0::SocketError { channel_id, .. } => Some(*channel_id),
            ClientMessageV0::SocketDataStart { channel_id, .. } => Some(*channel_id),
            ClientMessageV0::SocketClosed { channel_id, .. } => Some(*channel_id),
        }
    }

    /// The message with its channel identifier field set to `channel_id`; a `Hello` is unchanged.
    pub open spec fn with_channel_field(self, channel_id: Option<u32>) -> Self {
        match self {
            ClientMessageV0::Hello { .. } => self,
            ClientMessageV0::NewChannel { from, .. } => ClientMessageV0::NewChannel { channel_id, from },
            ClientMessageV0::RecoverChannel { from, state, .. } => ClientMessageV0::RecoverChannel { channel_id, from, state },
            ClientMessageV0::CloseChannel { error, .. } => ClientMessageV0::CloseChannel { channel_id, error },
            ClientMessageV0::DataStart { size, .. } => ClientMessageV0::DataStart { channel_id, size },
            ClientMessageV0::DataChunk { size, .. } => ClientMessageV0::DataChunk { channel_id, size },
            ClientMessageV0::DataEnd { .. } => ClientMessageV0::DataEnd { channel_id },
            ClientMessageV0::SocketOpened { socket_id, .. } => ClientMessageV0::SocketOpened { channel_id, socket_id },
            ClientMessageV0::SocketNotOpened { socket_id, error, .. } => ClientMessageV0::SocketNotOpened { channel_id, socket_id, error },
            ClientMessageV0::SocketError { socket_id, error, .. } => ClientMessageV0::SocketError { channel_id, socket_id, error },
            ClientMessageV0::SocketDataStart { socket_id, size, .. } => ClientMessageV0::SocketDataStart { channel_id, socket_id, size },
            ClientMessageV0::SocketClosed { socket_id, .. } => ClientMessageV0::SocketClosed { channel_id, socket_id },
        }
    }

    /// Whether the message should name its channel and does not.
    pub fn channel_id_missing(&self) -> (r: bool)
        ensures
            r == (self.channel_field() == Some(None::<u32>)),
    {
        match self {
            Self::Hello { .. } => false,
            Self::NewChannel { channel_id, .. } => channel_id.is_none(),
            Self::RecoverChannel { channel_id, .. } => channel_id.is_none(),
            Self::CloseChannel { channel_id, .. } => channel_id.is_none(),
            Self::DataStart { channel_id, .. } => channel_id.is_none(),
            Self::DataChunk { channel_id, .. } => channel_id.is_none(),
            Self::DataEnd { channel_id, .. } => channel_id.is_none(),
            Self::SocketOpened { channel_id, .. } => channel_id.is_none(),
            Self::SocketNotOpened { channel_id, .. } => channel_id.is_none(),
            Self::SocketError { channel_id, .. } => channel_id.is_none(),
            Self::SocketDataStart { channel_id, .. } => channel_id.is_none(),
            Self::SocketClosed { channel_id, .. } => channel_id.is_none(),
        }
    }

    /// Take the channel identifier out of the message.
    pub fn take_channel_id(&mut self) -> (r: TakeChannelIdResult)
        ensures
            match old(self).channel_field() {
                None => r == TakeChannelIdResult::Uneeded && *final(self) == *old(self),
                Some(Some(id)) => r == TakeChannelIdResult::Id(id) && *final(self) == old(self).with_channel_field(None),
                Some(None) => r == TakeChannelIdResult::Missing && *final(self) == *old(self),
            },
    {
        match self {
            ClientMessageV0::Hello { .. } => TakeChannelIdResult::Uneeded,
            ClientMessageV0::NewChannel { channel_id, .. } => take_id(channel_id),
            ClientMessageV0::RecoverChannel { channel_id, .. } => take_id(channel_id),
            ClientMessageV0::CloseChannel { channel_id, .. } => take_id(channel_id),
            ClientMessageV0::DataStart { channel_id, .. } => take_id(channel_id),
            ClientMessageV0::DataChunk { channel_id, .. } => take_id(channel_id),
            ClientMessageV0::DataEnd { channel_id, .. } => take_id(channel_id),
            ClientMessageV0::SocketOpened { channel_id, .. } => take_id(channel_id),
            ClientMessageV0::SocketNotOpened { channel_id, .. } => take_id(channel_id),
            ClientMessageV0::SocketError { channel_id, .. } => take_id(channel_id),
            ClientMessageV0::SocketDataStart { channel_id, .. } => take_id(channel_id),
            ClientMessageV0::SocketClosed { channel_id, .. } => take_id(channel_id),
        }
    }

    /// Set the channel identifier of the message; a `Hello` has none.
    pub fn set_channel_id(&mut self, new_channel_id: u32)
        ensures
            *final(self) == old(self).with_channel_field(Some(new_channel_id)),
    {
        match self {
            ClientMessageV0::Hello { .. } => {},
            ClientMessageV0::NewChannel { channel_id, .. } => {
                *channel_id = Some(new_channel_id);
            },
            ClientMessageV0::RecoverChannel { channel_id, .. } => {
                *channel_id = Some(new_channel_id);
            },
            ClientMessageV0::CloseChannel { channel_id, .. } => {
                *channel_id = Some(new_channel_id);
            },
            ClientMessageV0::DataStart { channel_id, .. } => {
                *channel_id = Some(new_channel_id);
            },
            ClientMessageV0::DataChunk { channel_id, .. } => {
                *channel_id = Some(new_channel_id);
            },
            ClientMessageV0::DataEnd { channel_id, .. } => {
                *channel_id = Some(new_channel_id);
            },
            ClientMessageV0::SocketOpened { channel_id, .. } => {
                *channel_id = Some(new_channel_id);
            },
            ClientMessageV0::SocketNotOpened { channel_id, .. } => {
                *channel_id = Some(new_channel_id);
            },
            ClientMessageV0::SocketError { channel_id, .. } => {
                *channel_id = Some(new_channel_id);
            },
            ClientMessageV0::SocketDataStart { channel_id, .. } => {
                *channel_id = Some(new_channel_id);
            },
            ClientMessageV0::SocketClosed { channel_id, .. } => {
                *channel_id = Some(new_channel_id);
            },
        }
    }
}


// ---------------------------------------------------------------------------------------------
// Client decisions
// ---------------------------------------------------------------------------------------------

/// Prepare a message for sending: its channel identifier travels in the base protocol's message
/// when the base protocol multiplexes, and stays in the message otherwise. Returns the message
/// and the base protocol's channel. Every message but `Hello` must name its channel.
pub fn prepare_client_message(message: ClientMessageV0, base_capabilities: &ProtocolCapabilities) -> (r: (ClientMessageV0, Option<u32>))
    requires
        message.channel_field() != Some(None::<u32>),
    ensures
        match message.channel_field() {
            None => r.0 == message && r.1 == None::<u32>,
            Some(Some(id)) => if base_capabilities.multiplexing == 1 {
                r.0 == message && r.1 == None::<u32>
            } else {
                r.0 == message.with_channel_field(None) && r.1 == Some(id)
            },
            Some(None) => false,
        },
{
    let mut message = message;
    let mut channel_id = match message.take_channel_id() {
        TakeChannelIdResult::Id(id) => Some(id),
        TakeChannelIdResult::Uneeded => None,
        TakeChannelIdResult::Missing => None,
    };
    if base_capabilities.multiplexing == 1 && channel_id.is_some() {
        message.set_channel_id(channel_id.unwrap());
        channel_id = None;
    }
    (message, channel_id)
}

/// The opening message of a client: the protocol version and the serialization formats it
/// offers.
pub fn client_hello() -> (r: ClientMessageV0)
    ensures
        r matches ClientMessageV0::Hello { version, serialization_formats } && version == ENDPOINT_PROTOCOL_VERSION
            && serialization_formats@.len() == 1 && serialization_formats@[0]@ == "Json"@,
{
    ClientMessageV0::Hello { version: ENDPOINT_PROTOCOL_VERSION, serialization_formats: SerializationFormat::all_names() }
}

/// The serialization format that the server's reply to the opening `Hello` selects: the reply
/// must be a `Hello` of this version naming a known format.
pub fn process_hello_reply(reply: &ServerMessageV0) -> (r: Result<SerializationFormat, Error>)
    ensures
        match reply {
            ServerMessageV0::Hello { version, serialization_format } => if *version != ENDPOINT_PROTOCOL_VERSION {
                r == Err::<SerializationFormat, Error>(Error::WrongVersion { expected: ENDPOINT_PROTOCOL_VERSION, received: *version })
            } else if serialization_format@ == "Json"@ {
                r == Ok::<SerializationFormat, Error>(SerializationFormat::Json)
            } else {
                r matches Err(Error::UnknownSerializationFormat { expected, received }) && received@ == serialization_format@
                    && expected@.len() == 1 && expected@[0]@ == "Json"@
            },
            _ => r matches Err(Error::WrongMessage { expected, received }) && expected@.len() == 1
                && expected@[0]@ == "Hello"@ && received@ == reply.spec_kind_name(),
        },
{
    match reply {
        ServerMessageV0::Hello { version, serialization_format } => {
            if *version != ENDPOINT_PROTOCOL_VERSION {
                Err(Error::WrongVersion { expected: ENDPOINT_PROTOCOL_VERSION, received: *version })
            } else {
                match SerializationFormat::from_name(serialization_format.as_str()) {
                    Some(format) => Ok(format),
                    None => Err(Error::UnknownSerializationFormat {
                        expected: SerializationFormat::all_names(),
                        received: serialization_format.clone(),
                    }),
                }
            }
        },
        _ => {
            let mut expected: Vec<&'static str> = Vec::new();
            expected.push("Hello");
            Err(Error::WrongMessage { expected, received: reply.name() })
        },
    }
}

/// Setting a channel identifier, then taking it, gives it back and leaves the field empty;
/// taking it, then setting it back, restores the message.
pub proof fn law_channel_id_round_trip(message: ClientMessageV0, id: u32)
    ensures
        message.channel_field() is Some ==> {
            let set = message.with_channel_field(Some(id));
            &&& set.channel_field() == Some(Some(id))
            &&& set.with_channel_field(None).channel_field() == Some(None::<u32>)
        },
        message.channel_field() == Some(Some(id)) ==> message.with_channel_field(None).with_channel_field(Some(id)) == message,
        message.channel_field() is None ==> message.with_channel_field(Some(id)) == message,
{
}

/// The same round trip for the server's messages.
pub proof fn law_server_channel_id_round_trip(message: ServerMessageV0, id: u32)
    ensures
        message.channel_field() is Some ==> {
            let set = message.with_channel_field(Some(id));
            &&& set.channel_field() == Some(Some(id))
            &&& set.with_channel_field(None).channel_field() == Some(None::<u32>)
        },
        message.channel_field() == Some(Some(id)) ==> message.with_channel_field(None).with_channel_field(Some(id)) == message,
        message.channel_field() is None ==> message.with_channel_field(Some(id)) == message,
{
}
} // verus!
