//! Messages crossing the driver's three boundaries: transport to
//! driver, driver to transport, and driver to handler and back.
//!
//! Channel handles are type parameters here: the driver never sends on
//! them itself, it only stores them and hands them back inside action
//! values, so their concrete type is the embedding runtime's business.

use vstd::prelude::*;
use crate::ids::MessageId;
use crate::ids::RequestId;
use crate::ids::ServiceId;

verus! {

/// The name of a backend protocol, as declared and selected by clients.
pub type CustomProtocol = String;

/// What a client may send to the driver.
pub enum DriverInboundData {
    /// An application message for the currently selected protocol.
    Message(Vec<u8>),
    /// Select one of the protocols declared at handshake time.
    Select(CustomProtocol),
    /// An application message addressed to an explicit protocol,
    /// bypassing the current selection.
    As(CustomProtocol, Vec<u8>),
    /// The handshake: declare the protocols this client wants to use.
    Connect(Vec<CustomProtocol>),
    /// Tear the connection down.
    Disconnect,
}

/// The mathematical shape of a `DriverInboundData` value.
pub enum InboundDataView {
    Message(Seq<u8>),
    Select(Seq<char>),
    As(Seq<char>, Seq<u8>),
    Connect(Seq<Seq<char>>),
    Disconnect,
}

impl View for DriverInboundData {
    type V = InboundDataView;

    open spec fn view(&self) -> InboundDataView {
        match self {
            DriverInboundData::Message(payload) => InboundDataView::Message(payload@),
            DriverInboundData::Select(name) => InboundDataView::Select(name@),
            DriverInboundData::As(name, payload) => InboundDataView::As(name@, payload@),
            DriverInboundData::Connect(names) => InboundDataView::Connect(names.deep_view()),
            DriverInboundData::Disconnect => InboundDataView::Disconnect,
        }
    }
}

/// A successful handshake-level reply.
pub enum DriverInboundReply {
    /// Acknowledges `Connect`, echoing the declared protocol list.
    Connected(Vec<CustomProtocol>),
    /// Acknowledges `Select`, echoing the selected protocol.
    Selected(CustomProtocol),
}

/// The mathematical shape of a `DriverInboundReply` value.
pub enum ReplyView {
    Connected(Seq<Seq<char>>),
    Selected(Seq<char>),
}

impl View for DriverInboundReply {
    type V = ReplyView;

    open spec fn view(&self) -> ReplyView {
        match self {
            DriverInboundReply::Connected(names) => ReplyView::Connected(names.deep_view()),
            DriverInboundReply::Selected(name) => ReplyView::Selected(name@),
        }
    }
}

/// The fixed set of error kinds surfaced to clients.
#[derive(PartialEq, Eq, Structural, Clone, Copy, Debug)]
pub enum DriverErrorType {
    SystemError,
    LogicalError,
    Conflict,
    BadInput,
    NotFound,
    BadProtocol,
    InvalidRequest,
}

/// An error reply: a kind plus a human-readable message. Errors are
/// delivered to the client as a normal reply; they never terminate the
/// driver.
#[derive(PartialEq, Eq, Debug)]
pub struct DriverError {
    pub error: DriverErrorType,
    pub message: String,
}

/// The payload of a reply to a client: raw bytes on success, a
/// structured error otherwise.
pub type DriverOutboundData = Result<Vec<u8>, DriverError>;

/// One inbound client message, carrying the per-message reply channel
/// handle `C` supplied by the transport.
pub struct DriverInboundMessage<C> {
    pub data: DriverInboundData,
    pub outbound_channel: C,
    pub id: MessageId,
}

/// A reply addressed to one client request.
#[derive(Debug)]
pub struct DriverOutboundMessage {
    pub data: DriverOutboundData,
    pub id: MessageId,
}

impl DriverOutboundMessage {
    /// A successful reply carrying raw bytes.
    pub fn ok(id: MessageId, data: Vec<u8>) -> (r: Self)
        ensures
            r.id == id,
            r.data == DriverOutboundData::Ok(data),
    {
        Self { id, data: DriverOutboundData::Ok(data) }
    }

    /// An error reply of the given kind.
    pub fn error(id: MessageId, error: DriverErrorType, message: &str) -> (r: Self)
        ensures
            r.id == id,
            r.data matches DriverOutboundData::Err(e) && e.error == error && e.message@
                == message@,
    {
        Self {
            id,
            data: DriverOutboundData::Err(
                DriverError { error, message: message.to_string() },
            ),
        }
    }
}

/// What a handler reply carries back to the driver.
pub type HandlerOutboundData = DriverOutboundData;

/// A message handed to a backend handler: the payload, the
/// driver-minted request id, an optional target service, and a handle
/// `R` back to the driver's shared handler-reply queue.
pub struct HandlerInboundMessage<R> {
    pub data: Vec<u8>,
    pub outbound_channel: R,
    pub service_id: Option<ServiceId>,
    pub id: RequestId,
}

/// A reply emitted by a handler, tagged with the driver-minted request
/// id. `close` marks a final reply; a partial reply leaves the request
/// open for further replies.
#[derive(Debug)]
pub struct HandlerOutboundMessage {
    pub data: HandlerOutboundData,
    pub close: bool,
    pub id: RequestId,
}

impl HandlerOutboundMessage {
    pub fn is_err(&self) -> (r: bool)
        ensures
            r == (self.data is Err),
    {
        if let DriverOutboundData::Err(_) = self.data {
            true
        } else {
            false
        }
    }

    pub fn is_ok(&self) -> (r: bool)
        ensures
            r == (self.data is Ok),
    {
        !self.is_err()
    }

    /// A final successful reply.
    pub fn ok(id: RequestId, data: Vec<u8>) -> (r: Self)
        ensures
            r.id == id,
            r.close,
            r.data == HandlerOutboundData::Ok(data),
    {
        Self { id, close: true, data: DriverOutboundData::Ok(data) }
    }

    /// A partial (streaming) successful reply: the request stays open.
    pub fn partial(id: RequestId, data: Vec<u8>) -> (r: Self)
        ensures
            r.id == id,
            !r.close,
            r.data == HandlerOutboundData::Ok(data),
    {
        Self { close: false, id, data: DriverOutboundData::Ok(data) }
    }

    /// A final error reply of the given kind.
    pub fn error(id: RequestId, error: DriverErrorType, message: &str) -> (r: Self)
        ensures
            r.id == id,
            r.close,
            r.data matches HandlerOutboundData::Err(e) && e.error == error && e.message@
                == message@,
    {
        Self {
            id,
            close: true,
            data: DriverOutboundData::Err(
                DriverError { error, message: message.to_string() },
            ),
        }
    }
}

/// The JSON value type of the `serde_json` crate, declared so that it
/// can be carried through the library opaquely.
#[verifier::external_type_specification]
#[verifier::external_body]
pub struct ExValue(serde_json::Value);

/// A reply body that embeds an application-level correlation id next to
/// an arbitrary JSON document, for handlers whose exchanges reference
/// ids of their own.
pub struct JsonReply {
    pub rid: RequestId,
    pub data: serde_json::Value,
}

} // verus!
