//! Per-client protocol state and the handshake state machine.
//!
//! Each client is in exactly one protocol phase. The transition
//! relation is a total function of the phase and the inbound message
//! kind: `step` states it once, and the driver's inbound handler is
//! proved against it.

use vstd::prelude::*;
use crate::messages::CustomProtocol;
use crate::messages::DriverErrorType;
use crate::messages::InboundDataView;
use crate::messages::ReplyView;

verus! {

/// A client's protocol phase. `Connect` is the initial
/// awaiting-handshake phase, `Ready` means the handshake is complete
/// but no protocol is selected, and `Custom(name)` means `name` is the
/// currently selected protocol.
#[derive(PartialEq, Eq, Hash, Debug, Clone)]
pub enum Protocol {
    Connect,
    Ready,
    Custom(CustomProtocol),
}

/// The mathematical shape of a `Protocol` value, under the names the
/// phases are usually known by.
pub enum ProtocolView {
    AwaitingHandshake,
    HandshakeComplete,
    Selected(Seq<char>),
}

impl View for Protocol {
    type V = ProtocolView;

    open spec fn view(&self) -> ProtocolView {
        match self {
            Protocol::Connect => ProtocolView::AwaitingHandshake,
            Protocol::Ready => ProtocolView::HandshakeComplete,
            Protocol::Custom(name) => ProtocolView::Selected(name@),
        }
    }
}

/// The driver's state for one connected client: the protocol phase and
/// the list of protocol names declared at handshake time.
pub struct ClientConnection {
    pub protocol: Protocol,
    pub enabled_protocols: Vec<CustomProtocol>,
}

/// The mathematical shape of a `ClientConnection`.
pub struct ConnectionView {
    pub protocol: ProtocolView,
    pub enabled: Seq<Seq<char>>,
}

impl View for ClientConnection {
    type V = ConnectionView;

    open spec fn view(&self) -> ConnectionView {
        ConnectionView { protocol: self.protocol@, enabled: self.enabled_protocols.deep_view() }
    }
}

impl Default for ClientConnection {
    /// A fresh connection awaits its handshake and has declared nothing.
    fn default() -> (r: Self)
        ensures
            r@ == (ConnectionView {
                protocol: ProtocolView::AwaitingHandshake,
                enabled: Seq::<Seq<char>>::empty(),
            }),
    {
        let r = ClientConnection { protocol: Protocol::Connect, enabled_protocols: Vec::new() };
        proof {
            assert(r@.enabled =~= Seq::<Seq<char>>::empty());
        }
        r
    }
}

/// Whether `name` occurs in `list`.
pub open spec fn contains_name(list: Seq<Seq<char>>, name: Seq<char>) -> bool {
    exists|i: int| 0 <= i < list.len() && list[i] == name
}

/// Whether `name` occurs in `list`.
pub fn list_contains(list: &Vec<CustomProtocol>, name: &CustomProtocol) -> (r: bool)
    ensures
        r == contains_name(list.deep_view(), name@),
{
    let mut i: usize = 0;
    while i < list.len()
        invariant
            0 <= i <= list.len(),
            forall|j: int| 0 <= j < i ==> list.deep_view()[j] != name@,
        decreases list.len() - i,
    {
        if list[i] == *name {
            proof {
                assert(list.deep_view()[i as int] == name@);
            }
            return true;
        }
        i += 1;
    }
    false
}

/// An element-by-element copy of a protocol list.
pub fn clone_protocols(list: &Vec<CustomProtocol>) -> (r: Vec<CustomProtocol>)
    ensures
        r@ == list@,
        r.deep_view() == list.deep_view(),
{
    let mut r: Vec<CustomProtocol> = Vec::new();
    let mut i: usize = 0;
    while i < list.len()
        invariant
            0 <= i <= list.len(),
            r@.len() == i,
            forall|j: int| 0 <= j < i ==> r@[j] == list@[j],
        decreases list.len() - i,
    {
        r.push(list[i].clone());
        i += 1;
    }
    proof {
        assert(r@ =~= list@);
        assert(r.deep_view() =~= list.deep_view());
    }
    r
}

/// What one inbound message does besides changing the client's state.
pub enum ReplyOutcome {
    /// A handshake-level acknowledgement is sent back immediately.
    Accepted(ReplyView),
    /// An error reply of this kind is sent back immediately.
    Rejected(DriverErrorType),
    /// The payload is dispatched to the handler registered for this
    /// protocol name; the reply will arrive asynchronously.
    Dispatched(Seq<char>, Seq<u8>),
    /// No reply is owed (disconnect).
    Silent,
}

/// The outcome of one inbound message: the client's next state, or
/// `None` when the connection is removed, and the reply obligation.
pub struct StepView {
    pub conn: Option<ConnectionView>,
    pub reply: ReplyOutcome,
}

/// The protocol state machine: a total function of the client's state,
/// the inbound message, and the set of protocol names a handler is
/// registered for.
pub open spec fn step(
    conn: ConnectionView,
    data: InboundDataView,
    registered: Set<Seq<char>>,
) -> StepView {
    match data {
        InboundDataView::Disconnect => StepView { conn: None, reply: ReplyOutcome::Silent },
        InboundDataView::Connect(names) => match conn.protocol {
            ProtocolView::AwaitingHandshake => StepView {
                conn: Some(
                    ConnectionView { protocol: ProtocolView::HandshakeComplete, enabled: names },
                ),
                reply: ReplyOutcome::Accepted(ReplyView::Connected(names)),
            },
            _ => StepView {
                conn: Some(conn),
                reply: ReplyOutcome::Rejected(DriverErrorType::InvalidRequest),
            },
        },
        InboundDataView::Select(name) => match conn.protocol {
            ProtocolView::AwaitingHandshake => StepView {
                conn: Some(conn),
                reply: ReplyOutcome::Rejected(DriverErrorType::InvalidRequest),
            },
            _ => if contains_name(conn.enabled, name) {
                StepView {
                    conn: Some(
                        ConnectionView {
                            protocol: ProtocolView::Selected(name),
                            enabled: conn.enabled,
                        },
                    ),
                    reply: ReplyOutcome::Accepted(ReplyView::Selected(name)),
                }
            } else {
                StepView {
                    conn: Some(conn),
                    reply: ReplyOutcome::Rejected(DriverErrorType::BadProtocol),
                }
            },
        },
        InboundDataView::As(name, payload) => match conn.protocol {
            ProtocolView::AwaitingHandshake => StepView {
                conn: Some(conn),
                reply: ReplyOutcome::Rejected(DriverErrorType::InvalidRequest),
            },
            _ => if registered.contains(name) {
                StepView { conn: Some(conn), reply: ReplyOutcome::Dispatched(name, payload) }
            } else {
                StepView {
                    conn: Some(conn),
                    reply: ReplyOutcome::Rejected(DriverErrorType::BadProtocol),
                }
            },
        },
        InboundDataView::Message(payload) => match conn.protocol {
            ProtocolView::AwaitingHandshake => StepView {
                conn: Some(conn),
                reply: ReplyOutcome::Rejected(DriverErrorType::InvalidRequest),
            },
            ProtocolView::HandshakeComplete => StepView {
                conn: Some(conn),
                reply: ReplyOutcome::Rejected(DriverErrorType::InvalidRequest),
            },
            ProtocolView::Selected(name) => if !contains_name(conn.enabled, name) {
                StepView {
                    conn: Some(conn),
                    reply: ReplyOutcome::Rejected(DriverErrorType::BadProtocol),
                }
            } else if registered.contains(name) {
                StepView { conn: Some(conn), reply: ReplyOutcome::Dispatched(name, payload) }
            } else {
                StepView {
                    conn: Some(conn),
                    reply: ReplyOutcome::Rejected(DriverErrorType::BadProtocol),
                }
            },
        },
    }
}

/// Before the handshake, any message other than `Connect` or
/// `Disconnect` is rejected as `InvalidRequest` and the client's state
/// is left awaiting the handshake, unchanged.
pub proof fn lemma_handshake_required(
    conn: ConnectionView,
    data: InboundDataView,
    registered: Set<Seq<char>>,
)
    requires
        conn.protocol is AwaitingHandshake,
        !(data is Connect),
        !(data is Disconnect),
    ensures
        step(conn, data, registered).reply == ReplyOutcome::Rejected(
            DriverErrorType::InvalidRequest,
        ),
        step(conn, data, registered).conn == Some(conn),
{
}

/// A successful handshake followed by the selection of a declared
/// protocol yields, in order, the `Connected` acknowledgement and the
/// `Selected` acknowledgement, and leaves the client in
/// `Selected(name)` with the declared list unchanged.
pub proof fn lemma_connect_then_select(
    conn: ConnectionView,
    names: Seq<Seq<char>>,
    name: Seq<char>,
    registered: Set<Seq<char>>,
)
    requires
        conn.protocol is AwaitingHandshake,
        contains_name(names, name),
    ensures
        ({
            let first = step(conn, InboundDataView::Connect(names), registered);
            &&& first.reply == ReplyOutcome::Accepted(ReplyView::Connected(names))
            &&& first.conn matches Some(mid) && {
                let second = step(mid, InboundDataView::Select(name), registered);
                &&& second.reply == ReplyOutcome::Accepted(ReplyView::Selected(name))
                &&& second.conn == Some(
                    ConnectionView { protocol: ProtocolView::Selected(name), enabled: names },
                )
            }
        }),
{
}

/// Selecting a protocol the client did not declare at handshake time is
/// rejected as `BadProtocol` and the client's state is unchanged,
/// whatever handlers are registered.
pub proof fn lemma_select_undeclared(
    conn: ConnectionView,
    name: Seq<char>,
    registered: Set<Seq<char>>,
)
    requires
        !(conn.protocol is AwaitingHandshake),
        !contains_name(conn.enabled, name),
    ensures
        step(conn, InboundDataView::Select(name), registered).reply == ReplyOutcome::Rejected(
            DriverErrorType::BadProtocol,
        ),
        step(conn, InboundDataView::Select(name), registered).conn == Some(conn),
{
}

/// An application message for a selected protocol the client never
/// declared is rejected as `BadProtocol` even when a handler for it is
/// registered, and the client's state is unchanged.
pub proof fn lemma_message_undeclared_protocol(
    conn: ConnectionView,
    name: Seq<char>,
    payload: Seq<u8>,
    registered: Set<Seq<char>>,
)
    requires
        conn.protocol == ProtocolView::Selected(name),
        !contains_name(conn.enabled, name),
    ensures
        step(conn, InboundDataView::Message(payload), registered).reply == ReplyOutcome::Rejected(
            DriverErrorType::BadProtocol,
        ),
        step(conn, InboundDataView::Message(payload), registered).conn == Some(conn),
{
}

/// `Disconnect` removes the client's connection state in every phase,
/// with no reply owed.
pub proof fn lemma_disconnect_removes(
    conn: ConnectionView,
    registered: Set<Seq<char>>,
)
    ensures
        step(conn, InboundDataView::Disconnect, registered).conn is None,
        step(conn, InboundDataView::Disconnect, registered).reply == ReplyOutcome::Silent,
{
}

} // verus!
