//! Topic types, subscription requests and the connection's states.

use vstd::prelude::*;
use crate::value::{EnokiValue, TypeTag, ValueModel};

verus! {

/// The type under which a topic is published or announced.
#[derive(Clone, Copy, Debug, PartialEq, Eq, Structural)]
pub enum NtType {
    Boolean,
    Double,
    Int,
    Float,
    String,
    Json,
    Raw,
    Rpc,
    MsgPack,
    ProtoBuf,
    BooleanArray,
    DoubleArray,
    IntArray,
    FloatArray,
    StringArray,
}

/// The name of the datalog type under which topics of a type are logged.
/// Whatever has no datalog type of its own is logged as raw bytes.
pub open spec fn datalog_type_name(t: NtType) -> Seq<char> {
    match t {
        NtType::Boolean => "boolean"@,
        NtType::Double => "double"@,
        NtType::String => "string"@,
        NtType::Float => "float"@,
        NtType::Int => "int64"@,
        NtType::BooleanArray => "boolean[]"@,
        NtType::DoubleArray => "double[]"@,
        NtType::StringArray => "string[]"@,
        NtType::FloatArray => "float[]"@,
        NtType::IntArray => "int64[]"@,
        _ => "raw"@,
    }
}

/// The name of the datalog type under which topics of a type are logged.
pub fn datalog_type(nt_type: &NtType) -> (s: String)
    ensures
        s@ == datalog_type_name(*nt_type),
{
    let name = match nt_type {
        NtType::Boolean => "boolean",
        NtType::Double => "double",
        NtType::String => "string",
        NtType::Float => "float",
        NtType::Int => "int64",
        NtType::BooleanArray => "boolean[]",
        NtType::DoubleArray => "double[]",
        NtType::StringArray => "string[]",
        NtType::FloatArray => "float[]",
        NtType::IntArray => "int64[]",
        _ => "raw",
    };
    String::from_str(name)
}

/// The topic type under which a value of a given type is published.
pub open spec fn wire_type_of(t: TypeTag) -> NtType {
    match t {
        TypeTag::Boolean => NtType::Boolean,
        TypeTag::Double => NtType::Double,
        TypeTag::Float => NtType::Float,
        TypeTag::Int => NtType::Int,
        TypeTag::String => NtType::String,
        TypeTag::BooleanArray => NtType::BooleanArray,
        TypeTag::DoubleArray => NtType::DoubleArray,
        TypeTag::FloatArray => NtType::FloatArray,
        TypeTag::IntArray => NtType::IntArray,
        TypeTag::StringArray => NtType::StringArray,
        TypeTag::Protobuf => NtType::ProtoBuf,
        TypeTag::ByteArray => NtType::Raw,
    }
}

/// The topic type under which a value is published.
pub fn wire_type(v: &EnokiValue) -> (t: NtType)
    ensures
        t == wire_type_of(v@.tag()),
{
    match v {
        EnokiValue::Boolean(_) => NtType::Boolean,
        EnokiValue::Double(_) => NtType::Double,
        EnokiValue::Float(_) => NtType::Float,
        EnokiValue::Int(_) => NtType::Int,
        EnokiValue::String(_) => NtType::String,
        EnokiValue::BooleanArray(_) => NtType::BooleanArray,
        EnokiValue::DoubleArray(_) => NtType::DoubleArray,
        EnokiValue::FloatArray(_) => NtType::FloatArray,
        EnokiValue::IntArray(_) => NtType::IntArray,
        EnokiValue::StringArray(_) => NtType::StringArray,
        EnokiValue::Protobuf(_) => NtType::ProtoBuf,
        EnokiValue::ByteArray(_) => NtType::Raw,
    }
}

/// A value is logged under the datalog type of the topic type under which
/// it is published.
pub proof fn lemma_logged_under_topic_type(v: ValueModel)
    ensures
        crate::datalog_value::datalog_encode(v).tag().name() == datalog_type_name(
            wire_type_of(v.tag()),
        ),
{
}

/// The options of a subscription.
#[derive(Clone, Copy, Debug, PartialEq, Eq, Structural)]
pub struct SubscriptionOptions {
    /// Send every value change, not only the latest.
    pub all: Option<bool>,
    /// The topic is a prefix: every topic under it is meant.
    pub prefix: Option<bool>,
    /// The period between updates in seconds, as the bits of a double.
    pub periodic: Option<u64>,
    /// Send announcements only, no values.
    pub topics_only: Option<bool>,
}

/// A request to subscribe to a topic or to end a subscription.
#[derive(Clone, Debug, PartialEq)]
pub struct SubscriptionPackage {
    pub topic: String,
    pub unsubscribe: bool,
    pub options: Option<SubscriptionOptions>,
}

impl SubscriptionPackage {
    /// A request to subscribe.
    pub fn new(name: String, options: SubscriptionOptions) -> (r: Self)
        ensures
            r.topic == name,
            !r.unsubscribe,
            r.options == Some(options),
    {
        Self { topic: name, unsubscribe: false, options: Some(options) }
    }

    /// A request to end a subscription.
    pub fn unsub(name: String) -> (r: Self)
        ensures
            r.topic == name,
            r.unsubscribe,
            r.options.is_none(),
    {
        Self { topic: name, unsubscribe: true, options: None }
    }
}

/// How many commands a client's channel holds before a send fails.
pub const COMMAND_CAPACITY: usize = 255;

/// How long a session may take to open, in milliseconds.
pub const CONNECT_TIMEOUT_MILLIS: u64 = 30000;

/// How long the engine waits after a lost transport before it opens the
/// session again, in milliseconds.
pub const RETRY_INTERVAL_MILLIS: u64 = 10000;

/// Where a connection stands.
#[derive(Clone, Copy, Debug, PartialEq, Eq, Structural)]
pub enum ConnectionState {
    Dialing,
    Connected,
    Announcing,
    Streaming,
    Disconnected,
    Reconnecting,
    Stopped,
}

/// What can happen to a connection.
#[derive(Clone, Copy, Debug, PartialEq, Eq, Structural)]
pub enum ConnectionEvent {
    /// The session was opened.
    Opened,
    /// The session could not be opened in time.
    OpenFailed,
    /// The server announced or took back a topic.
    Announcement,
    /// A value arrived.
    Value,
    /// The transport was lost.
    Lost,
    /// The wait before a retry is over.
    RetryDue,
    /// The client was stopped.
    Stop,
}

/// The state after an event. An event that means nothing in a state leaves
/// it as it is, and nothing leads out of `Stopped`.
pub open spec fn next_state(s: ConnectionState, e: ConnectionEvent) -> ConnectionState {
    match (s, e) {
        (ConnectionState::Stopped, _) => ConnectionState::Stopped,
        (_, ConnectionEvent::Stop) => ConnectionState::Stopped,
        (ConnectionState::Dialing, ConnectionEvent::Opened) => ConnectionState::Connected,
        (ConnectionState::Reconnecting, ConnectionEvent::Opened) => ConnectionState::Connected,
        (ConnectionState::Dialing, ConnectionEvent::OpenFailed) => ConnectionState::Disconnected,
        (ConnectionState::Reconnecting, ConnectionEvent::OpenFailed) => ConnectionState::Disconnected,
        (ConnectionState::Disconnected, ConnectionEvent::RetryDue) => ConnectionState::Reconnecting,
        (ConnectionState::Connected, ConnectionEvent::Announcement) => ConnectionState::Announcing,
        (ConnectionState::Announcing, ConnectionEvent::Announcement) => ConnectionState::Announcing,
        (ConnectionState::Streaming, ConnectionEvent::Announcement) => ConnectionState::Announcing,
        (ConnectionState::Connected, ConnectionEvent::Value) => ConnectionState::Streaming,
        (ConnectionState::Announcing, ConnectionEvent::Value) => ConnectionState::Streaming,
        (ConnectionState::Streaming, ConnectionEvent::Value) => ConnectionState::Streaming,
        (ConnectionState::Connected, ConnectionEvent::Lost) => ConnectionState::Disconnected,
        (ConnectionState::Announcing, ConnectionEvent::Lost) => ConnectionState::Disconnected,
        (ConnectionState::Streaming, ConnectionEvent::Lost) => ConnectionState::Disconnected,
        (s, _) => s,
    }
}

impl ConnectionState {
    /// Whether the session is open.
    pub open spec fn is_live(self) -> bool {
        self == ConnectionState::Connected || self == ConnectionState::Announcing || self
            == ConnectionState::Streaming
    }

    /// The state after an event.
    pub fn on(self, event: ConnectionEvent) -> (next: ConnectionState)
        ensures
            next == next_state(self, event),
    {
        match (self, event) {
            (ConnectionState::Stopped, _) => ConnectionState::Stopped,
            (_, ConnectionEvent::Stop) => ConnectionState::Stopped,
            (ConnectionState::Dialing, ConnectionEvent::Opened) => ConnectionState::Connected,
            (ConnectionState::Reconnecting, ConnectionEvent::Opened) => ConnectionState::Connected,
            (ConnectionState::Dialing, ConnectionEvent::OpenFailed) => ConnectionState::Disconnected,
            (ConnectionState::Reconnecting, ConnectionEvent::OpenFailed) => {
                ConnectionState::Disconnected
            },
            (ConnectionState::Disconnected, ConnectionEvent::RetryDue) => {
                ConnectionState::Reconnecting
            },
            (ConnectionState::Connected, ConnectionEvent::Announcement) => ConnectionState::Announcing,
            (ConnectionState::Announcing, ConnectionEvent::Announcement) => ConnectionState::Announcing,
            (ConnectionState::Streaming, ConnectionEvent::Announcement) => ConnectionState::Announcing,
            (ConnectionState::Connected, ConnectionEvent::Value) => ConnectionState::Streaming,
            (ConnectionState::Announcing, ConnectionEvent::Value) => ConnectionState::Streaming,
            (ConnectionState::Streaming, ConnectionEvent::Value) => ConnectionState::Streaming,
            (ConnectionState::Connected, ConnectionEvent::Lost) => ConnectionState::Disconnected,
            (ConnectionState::Announcing, ConnectionEvent::Lost) => ConnectionState::Disconnected,
            (ConnectionState::Streaming, ConnectionEvent::Lost) => ConnectionState::Disconnected,
            (s, _) => s,
        }
    }

    /// Whether the session is open.
    pub fn live(self) -> (b: bool)
        ensures
            b == self.is_live(),
    {
        match self {
            ConnectionState::Connected => true,
            ConnectionState::Announcing => true,
            ConnectionState::Streaming => true,
            _ => false,
        }
    }
}

/// A stopped connection stays stopped, and a session opens only out of
/// dialing or reconnecting.
pub proof fn lemma_connection(s: ConnectionState, e: ConnectionEvent)
    ensures
        s == ConnectionState::Stopped ==> next_state(s, e) == ConnectionState::Stopped,
        next_state(s, e) == ConnectionState::Connected && s != ConnectionState::Connected ==> (s
            == ConnectionState::Dialing || s == ConnectionState::Reconnecting) && e
            == ConnectionEvent::Opened,
        next_state(s, e) == ConnectionState::Reconnecting && s != ConnectionState::Reconnecting
            ==> s == ConnectionState::Disconnected,
{
}

} // verus!
