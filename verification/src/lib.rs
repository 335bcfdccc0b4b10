//! A protocol multiplexing driver.
//!
//! The driver sits between wire-facing client connections and a set of
//! pluggable backend service handlers. It enforces a connection-level
//! handshake protocol, routes application messages to the handler
//! registered for the selected protocol, and correlates asynchronous
//! handler replies back to the originating client request.
//!
//! The driver itself is a pure state machine: it decides, it does not
//! perform channel sends. Every inbound event yields an action value
//! that an embedding runtime executes on its own channels.

pub mod ids;
pub mod messages;
pub mod connection;
pub mod driver;
pub mod kv;

pub use ids::ClientId;
pub use ids::CorrelationId;
pub use ids::MessageId;
pub use ids::RequestId;
pub use ids::ServiceId;
pub use messages::CustomProtocol;
pub use messages::DriverErrorType;
pub use messages::DriverError;
pub use messages::DriverInboundData;
pub use messages::DriverInboundReply;
pub use messages::DriverInboundMessage;
pub use messages::DriverOutboundData;
pub use messages::DriverOutboundMessage;
pub use messages::HandlerOutboundData;
pub use messages::HandlerInboundMessage;
pub use messages::HandlerOutboundMessage;
pub use messages::InboundDataView;
pub use messages::ReplyView;
pub use messages::JsonReply;
pub use connection::ClientConnection;
pub use connection::ConnectionView;
pub use connection::Protocol;
pub use connection::ProtocolView;
pub use connection::ReplyOutcome;
pub use connection::StepView;
pub use connection::contains_name;
pub use connection::step;
pub use driver::Driver;
pub use driver::InboundAction;
pub use driver::OutboundAction;
