//! The driver: per-client connection states, the handler registry, the
//! pending-request registry, and the two entry points of the
//! coordinating loop.
//!
//! The driver is generic over two channel-handle types that it stores
//! and hands back but never inspects: `C`, the per-message reply handle
//! a transport supplies with each inbound message, and `H`, the inbound
//! queue handle of a registered handler. An embedding runtime drains
//! its two queues, calls `inbound_handler` / `outbound_handler`, and
//! performs the sends the returned action asks for.

use vstd::prelude::*;
use std::collections::HashMap;
use crate::ids::ClientId;
use crate::ids::MessageId;
use crate::ids::RequestId;
use crate::connection::ClientConnection;
use crate::connection::clone_protocols;
use crate::connection::list_contains;
use crate::connection::ConnectionView;
use crate::connection::Protocol;
use crate::connection::ProtocolView;
use crate::connection::ReplyOutcome;
use crate::connection::step;
use crate::messages::CustomProtocol;
use crate::messages::DriverError;
use crate::messages::DriverErrorType;
use crate::messages::DriverInboundData;
use crate::messages::DriverInboundMessage;
use crate::messages::DriverInboundReply;
use crate::messages::DriverOutboundMessage;
use crate::messages::HandlerInboundMessage;
use crate::messages::HandlerOutboundMessage;

verus! {

broadcast use vstd::std_specs::hash::group_hash_axioms;

/// Whether some entry of `table` is named `name`.
pub open spec fn table_has<H>(table: Seq<(CustomProtocol, H)>, name: Seq<char>) -> bool {
    exists|i: int| 0 <= i < table.len() && table[i].0@ == name
}

/// Whether no two entries of `table` share a name.
pub open spec fn unique_names<H>(table: Seq<(CustomProtocol, H)>) -> bool {
    forall|i: int, j: int| 0 <= i < j < table.len() ==> table[i].0@ != table[j].0@
}

/// The handler registered under `name`, if any.
pub open spec fn table_lookup<H>(table: Seq<(CustomProtocol, H)>, name: Seq<char>) -> Option<H> {
    if table_has(table, name) {
        let i = choose|i: int| 0 <= i < table.len() && table[i].0@ == name;
        Some(table[i].1)
    } else {
        None
    }
}

proof fn lemma_table_lookup_at<H>(table: Seq<(CustomProtocol, H)>, name: Seq<char>, i: int)
    requires
        unique_names(table),
        0 <= i < table.len(),
        table[i].0@ == name,
    ensures
        table_lookup(table, name) == Some(table[i].1),
{
    assert(table_has(table, name));
    let j = choose|j: int| 0 <= j < table.len() && table[j].0@ == name;
    if i < j {
        assert(table[i].0@ != table[j].0@);
    } else if j < i {
        assert(table[j].0@ != table[i].0@);
    }
}

/// What the runtime must do with one inbound client message.
pub enum InboundAction<C, R> {
    /// Send this immediate reply on the message's own reply handle; if
    /// the send fails, report it through `Driver::reply_failed`.
    Reply { channel: C, id: MessageId, body: Result<DriverInboundReply, DriverError> },
    /// Enqueue `message` to the handler registered under `proto`; a
    /// failure here is fatal to the driver instance.
    Dispatch { proto: CustomProtocol, message: HandlerInboundMessage<R> },
    /// The client disconnected; its state is already gone, nothing is
    /// owed.
    Disconnected,
}

/// What the runtime must do with one handler reply.
pub enum OutboundAction<C> {
    /// A final reply: the pending entry was consumed; send `message` on
    /// `channel`, and on failure report it through
    /// `Driver::reply_failed`.
    Deliver { channel: C, message: DriverOutboundMessage },
    /// A partial reply: the pending entry survives; send `message` on
    /// the channel `Driver::pending_channel` yields for `request`.
    DeliverPartial { request: RequestId, message: DriverOutboundMessage },
    /// No pending entry matches the reply's request id: drop it.
    Ignored,
}

/// One protocol-multiplexing driver instance's state.
pub struct Driver<C, H> {
    clients: HashMap<ClientId, ClientConnection>,
    pending: HashMap<u64, (MessageId, C)>,
    handlers: Vec<(CustomProtocol, H)>,
    next_rid: u64,
}

impl<C, H> Driver<C, H> {
    /// The pending-request registry: request id to originating client
    /// identity and reply handle.
    pub closed spec fn pending_map(self) -> Map<u64, (MessageId, C)> {
        self.pending@
    }

    /// The handler registry, in registration order.
    pub closed spec fn handler_table(self) -> Seq<(CustomProtocol, H)> {
        self.handlers@
    }

    /// The counter the next minted request id will carry.
    pub closed spec fn next_request_id(self) -> u64 {
        self.next_rid
    }

    pub closed spec fn clients_map(self) -> Map<ClientId, ClientConnection> {
        self.clients@
    }

    /// The protocol state of client `cid`, if it is connected.
    pub open spec fn client_state(self, cid: ClientId) -> Option<ConnectionView> {
        if self.clients_map().contains_key(cid) {
            Some(self.clients_map()[cid]@)
        } else {
            None
        }
    }

    /// The state a message from client `cid` is judged against: a
    /// client the driver has never seen starts awaiting its handshake.
    pub open spec fn effective_state(self, cid: ClientId) -> ConnectionView {
        match self.client_state(cid) {
            Some(c) => c,
            None => ConnectionView {
                protocol: ProtocolView::AwaitingHandshake,
                enabled: Seq::empty(),
            },
        }
    }

    /// The set of protocol names a handler is registered for.
    pub open spec fn handler_names(self) -> Set<Seq<char>> {
        Set::new(|n: Seq<char>| table_has(self.handler_table(), n))
    }

    /// The handler registered under `name`, if any.
    pub open spec fn registered_handler(self, name: Seq<char>) -> Option<H> {
        table_lookup(self.handler_table(), name)
    }

    /// Every pending request id was minted below the counter, and no
    /// two registered handlers share a name.
    pub open spec fn wf(self) -> bool {
        &&& forall|k: u64| #[trigger]
            self.pending_map().contains_key(k) ==> k < self.next_request_id()
        &&& unique_names(self.handler_table())
    }

    /// Whether a fresh request id can still be minted.
    pub fn can_issue(&self) -> (r: bool)
        ensures
            r == (self.next_request_id() < u64::MAX),
    {
        self.next_rid < u64::MAX
    }

    /// Registers `handler` for protocol `name`. At most one handler is
    /// registered per name: a second registration overwrites the first.
    pub fn register_handler(&mut self, name: CustomProtocol, handler: H)
        requires
            old(self).wf(),
        ensures
            final(self).wf(),
            final(self).registered_handler(name@) == Some(handler),
            forall|n: Seq<char>| n != name@ ==> final(self).registered_handler(n) == old(
                self,
            ).registered_handler(n),
            final(self).handler_names() =~= old(self).handler_names().insert(name@),
            final(self).clients_map() == old(self).clients_map(),
            final(self).pending_map() == old(self).pending_map(),
            final(self).next_request_id() == old(self).next_request_id(),
    {
        let ghost pre = self.handlers@;
        let mut i: usize = 0;
        let mut found: Option<usize> = None;
        while i < self.handlers.len()
            invariant
                0 <= i <= self.handlers.len(),
                self.handlers@ == pre,
                match found {
                    Some(f) => 0 <= f < i && pre[f as int].0@ == name@,
                    None => forall|j: int| 0 <= j < i ==> pre[j].0@ != name@,
                },
            decreases self.handlers.len() - i,
        {
            if found.is_none() && self.handlers[i].0 == name {
                found = Some(i);
            }
            i += 1;
        }
        proof {
            if found is None {
                assert(!table_has(pre, name@));
            }
        }
        if let Some(f) = found {
            self.handlers.remove(f);
        }
        let ghost trimmed = self.handlers@;
        self.handlers.push((name, handler));
        proof {
            let post = self.handlers@;
            let last = post.len() - 1;
            assert(forall|j: int| 0 <= j < last ==> #[trigger] trimmed[j] == post[j]);
            assert(forall|j: int| 0 <= j < last ==> post[j].0@ != name@) by {
                match found {
                    Some(f) => {
                        assert(forall|j: int| 0 <= j < last ==> #[trigger] post[j] == (if j < (
                        f as int) {
                            pre[j]
                        } else {
                            pre[j + 1]
                        }));
                    },
                    None => {},
                }
            }
            assert(unique_names(post));
            lemma_table_lookup_at(post, name@, last);
            assert forall|n: Seq<char>| n != name@ implies self.registered_handler(n) == old(
                self,
            ).registered_handler(n) by {
                if table_has(pre, n) {
                    let w = choose|w: int| 0 <= w < pre.len() && pre[w].0@ == n;
                    lemma_table_lookup_at(pre, n, w);
                    match found {
                        Some(f) => {
                            if w < f as int {
                                assert(post[w] == pre[w]);
                                lemma_table_lookup_at(post, n, w);
                            } else {
                                assert(post[w - 1] == pre[w]);
                                lemma_table_lookup_at(post, n, w - 1);
                            }
                        },
                        None => {
                            assert(post[w] == pre[w]);
                            lemma_table_lookup_at(post, n, w);
                        },
                    }
                } else {
                    assert(!table_has(post, n)) by {
                        if table_has(post, n) {
                            let w = choose|w: int| 0 <= w < post.len() && post[w].0@ == n;
                            assert(w < last);
                            match found {
                                Some(f) => {
                                    if w < f as int {
                                        assert(pre[w].0@ == n);
                                    } else {
                                        assert(pre[w + 1].0@ == n);
                                    }
                                },
                                None => {
                                    assert(pre[w].0@ == n);
                                },
                            }
                        }
                    }
                }
            }
            assert forall|k: u64| #[trigger]
                self.pending_map().contains_key(k) implies k < self.next_request_id() by {
                assert(old(self).pending_map().contains_key(k));
            }
            assert(self.handler_names() =~= old(self).handler_names().insert(name@)) by {
                assert forall|n: Seq<char>| self.handler_names().contains(n) implies old(
                    self,
                ).handler_names().insert(name@).contains(n) by {
                    if n != name@ {
                        assert(self.registered_handler(n) == old(self).registered_handler(n));
                        assert(table_has(post, n));
                        let w = choose|w: int| 0 <= w < post.len() && post[w].0@ == n;
                        assert(w < last);
                        match found {
                            Some(f) => {
                                if w < f as int {
                                    assert(pre[w].0@ == n);
                                } else {
                                    assert(pre[w + 1].0@ == n);
                                }
                            },
                            None => {
                                assert(pre[w].0@ == n);
                            },
                        }
                    }
                }
                assert forall|n: Seq<char>|
                    old(self).handler_names().insert(name@).contains(n) implies self
                    .handler_names()
                    .contains(n) by {
                    if n != name@ {
                        let w = choose|w: int| 0 <= w < pre.len() && pre[w].0@ == n;
                        match found {
                            Some(f) => {
                                if w < f as int {
                                    assert(post[w] == pre[w]);
                                } else if w > f as int {
                                    assert(post[w - 1] == pre[w]);
                                }
                            },
                            None => {
                                assert(post[w] == pre[w]);
                            },
                        }
                    }
                }
            }
        }
    }

    /// The inbound queue handle of the handler registered under `name`.
    pub fn handler_channel(&self, name: &CustomProtocol) -> (r: Option<&H>)
        requires
            self.wf(),
        ensures
            match r {
                Some(h) => self.registered_handler(name@) == Some(*h),
                None => self.registered_handler(name@) is None,
            },
    {
        let mut i: usize = 0;
        while i < self.handlers.len()
            invariant
                self.wf(),
                0 <= i <= self.handlers.len(),
                forall|j: int| 0 <= j < i ==> self.handlers@[j].0@ != name@,
            decreases self.handlers.len() - i,
        {
            if self.handlers[i].0 == *name {
                proof {
                    lemma_table_lookup_at(self.handlers@, name@, i as int);
                }
                return Some(&self.handlers[i].1);
            }
            i += 1;
        }
        proof {
            assert(!table_has(self.handlers@, name@));
        }
        None
    }

    /// Whether a handler is registered under `name`.
    pub fn has_handler(&self, name: &CustomProtocol) -> (r: bool)
        ensures
            r == self.handler_names().contains(name@),
    {
        let mut i: usize = 0;
        while i < self.handlers.len()
            invariant
                0 <= i <= self.handlers.len(),
                forall|j: int| 0 <= j < i ==> self.handlers@[j].0@ != name@,
            decreases self.handlers.len() - i,
        {
            if self.handlers[i].0 == *name {
                return true;
            }
            i += 1;
        }
        false
    }

    /// Mints a fresh request id and records `(mid, sender)` under it.
    /// The id equals the current counter, so it is strictly greater
    /// than every id this instance has issued before.
    pub fn register_pending(&mut self, mid: MessageId, sender: C) -> (r: RequestId)
        requires
            old(self).wf(),
            old(self).next_request_id() < u64::MAX,
        ensures
            final(self).wf(),
            r.0 == old(self).next_request_id(),
            !old(self).pending_map().contains_key(r.0),
            final(self).next_request_id() == old(self).next_request_id() + 1,
            final(self).pending_map() == old(self).pending_map().insert(r.0, (mid, sender)),
            final(self).clients_map() == old(self).clients_map(),
            final(self).handler_table() == old(self).handler_table(),
    {
        let rid = RequestId(self.next_rid);
        self.next_rid = self.next_rid + 1;
        self.pending.insert(rid.0, (mid, sender));
        proof {
            assert forall|k: u64| #[trigger]
                self.pending_map().contains_key(k) implies k < self.next_request_id() by {
                if k != rid.0 {
                    assert(old(self).pending_map().contains_key(k));
                }
            }
        }
        rid
    }

    /// The reply handle recorded for pending request `rid`, if any.
    pub fn pending_channel(&self, rid: RequestId) -> (r: Option<&C>)
        ensures
            match r {
                Some(c) => self.pending_map().contains_key(rid.0) && *c == self.pending_map().index(
                    rid.0,
                ).1,
                None => !self.pending_map().contains_key(rid.0),
            },
    {
        match self.pending.get(&rid.0) {
            Some(entry) => Some(&entry.1),
            None => None,
        }
    }

    /// Processes one inbound client message: judges it against the
    /// client's current protocol state exactly as `step` says, updates
    /// that state, registers a pending entry when the message is
    /// dispatched to a handler, and returns the action the runtime
    /// must perform.
    pub fn inbound_handler<R>(&mut self, msg: DriverInboundMessage<C>, reply_to: R) -> (act:
        InboundAction<C, R>)
        requires
            old(self).wf(),
            old(self).next_request_id() < u64::MAX,
        ensures
            final(self).wf(),
            final(self).handler_table() == old(self).handler_table(),
            final(self).client_state(msg.id.client) == step(
                old(self).effective_state(msg.id.client),
                msg.data@,
                old(self).handler_names(),
            ).conn,
            forall|k: ClientId| k != msg.id.client ==> final(self).client_state(k) == old(
                self,
            ).client_state(k),
            match step(
                old(self).effective_state(msg.id.client),
                msg.data@,
                old(self).handler_names(),
            ).reply {
                ReplyOutcome::Accepted(rv) => {
                    &&& final(self).pending_map() == old(self).pending_map()
                    &&& final(self).next_request_id() == old(self).next_request_id()
                    &&& act matches InboundAction::Reply { channel, id, body } && channel == msg
                        .outbound_channel && id == msg.id && (body matches Ok(reply) && reply@
                        == rv)
                },
                ReplyOutcome::Rejected(kind) => {
                    &&& final(self).pending_map() == old(self).pending_map()
                    &&& final(self).next_request_id() == old(self).next_request_id()
                    &&& act matches InboundAction::Reply { channel, id, body } && channel == msg
                        .outbound_channel && id == msg.id && (body matches Err(e) && e.error
                        == kind)
                },
                ReplyOutcome::Dispatched(name, payload) => {
                    &&& final(self).next_request_id() == old(self).next_request_id() + 1
                    &&& final(self).pending_map() == old(self).pending_map().insert(
                        old(self).next_request_id(),
                        (msg.id, msg.outbound_channel),
                    )
                    &&& act matches InboundAction::Dispatch { proto, message } && proto@ == name
                        && message.data@ == payload && message.id.0 == old(self).next_request_id()
                        && message.service_id is None && message.outbound_channel == reply_to
                },
                ReplyOutcome::Silent => {
                    &&& final(self).pending_map() == old(self).pending_map()
                    &&& final(self).next_request_id() == old(self).next_request_id()
                    &&& act is Disconnected
                },
            },
    {
        let DriverInboundMessage { data, outbound_channel, id } = msg;
        let mut conn = match self.clients.remove(&id.client) {
            Some(c) => c,
            None => ClientConnection::default(),
        };
        match data {
            DriverInboundData::Disconnect => {
                proof {
                    self.lemma_wf_untouched(*old(self));
                }
                InboundAction::Disconnected
            },
            DriverInboundData::Connect(protos) => {
                match conn.protocol {
                    Protocol::Connect => {
                        conn.protocol = Protocol::Ready;
                        conn.enabled_protocols = clone_protocols(&protos);
                        self.clients.insert(id.client, conn);
                        proof {
                            self.lemma_wf_untouched(*old(self));
                        }
                        InboundAction::Reply {
                            channel: outbound_channel,
                            id,
                            body: Ok(DriverInboundReply::Connected(protos)),
                        }
                    },
                    _ => {
                        self.clients.insert(id.client, conn);
                        proof {
                            self.lemma_wf_untouched(*old(self));
                        }
                        InboundAction::Reply {
                            channel: outbound_channel,
                            id,
                            body: Err(
                                DriverError {
                                    error: DriverErrorType::InvalidRequest,
                                    message: "handshake already complete".to_string(),
                                },
                            ),
                        }
                    },
                }
            },
            DriverInboundData::Select(proto) => {
                match conn.protocol {
                    Protocol::Connect => {
                        self.clients.insert(id.client, conn);
                        proof {
                            self.lemma_wf_untouched(*old(self));
                        }
                        InboundAction::Reply {
                            channel: outbound_channel,
                            id,
                            body: Err(
                                DriverError {
                                    error: DriverErrorType::InvalidRequest,
                                    message: "handshake required".to_string(),
                                },
                            ),
                        }
                    },
                    _ => {
                        if list_contains(&conn.enabled_protocols, &proto) {
                            conn.protocol = Protocol::Custom(proto.clone());
                            self.clients.insert(id.client, conn);
                            proof {
                                self.lemma_wf_untouched(*old(self));
                            }
                            InboundAction::Reply {
                                channel: outbound_channel,
                                id,
                                body: Ok(DriverInboundReply::Selected(proto)),
                            }
                        } else {
                            self.clients.insert(id.client, conn);
                            proof {
                                self.lemma_wf_untouched(*old(self));
                            }
                            InboundAction::Reply {
                                channel: outbound_channel,
                                id,
                                body: Err(
                                    DriverError {
                                        error: DriverErrorType::BadProtocol,
                                        message: "protocol was not declared at handshake"
                                            .to_string(),
                                    },
                                ),
                            }
                        }
                    },
                }
            },
            DriverInboundData::As(proto, payload) => {
                match conn.protocol {
                    Protocol::Connect => {
                        self.clients.insert(id.client, conn);
                        proof {
                            self.lemma_wf_untouched(*old(self));
                        }
                        InboundAction::Reply {
                            channel: outbound_channel,
                            id,
                            body: Err(
                                DriverError {
                                    error: DriverErrorType::InvalidRequest,
                                    message: "handshake required".to_string(),
                                },
                            ),
                        }
                    },
                    _ => {
                        self.clients.insert(id.client, conn);
                        if self.has_handler(&proto) {
                            proof {
                                self.lemma_wf_untouched(*old(self));
                            }
                            let rid = self.register_pending(id, outbound_channel);
                            InboundAction::Dispatch {
                                proto,
                                message: HandlerInboundMessage {
                                    data: payload,
                                    outbound_channel: reply_to,
                                    service_id: None,
                                    id: rid,
                                },
                            }
                        } else {
                            proof {
                                self.lemma_wf_untouched(*old(self));
                            }
                            InboundAction::Reply {
                                channel: outbound_channel,
                                id,
                                body: Err(
                                    DriverError {
                                        error: DriverErrorType::BadProtocol,
                                        message: "protocol is not known".to_string(),
                                    },
                                ),
                            }
                        }
                    },
                }
            },
            DriverInboundData::Message(payload) => {
                let verdict: (bool, bool, Option<CustomProtocol>) = match &conn.protocol {
                    Protocol::Connect => (false, false, None),
                    Protocol::Ready => (false, false, None),
                    Protocol::Custom(p) => {
                        let enabled = list_contains(&conn.enabled_protocols, p);
                        let registered = self.has_handler(p);
                        (enabled, registered, Some(p.clone()))
                    },
                };
                match conn.protocol {
                    Protocol::Connect => {
                        self.clients.insert(id.client, conn);
                        proof {
                            self.lemma_wf_untouched(*old(self));
                        }
                        InboundAction::Reply {
                            channel: outbound_channel,
                            id,
                            body: Err(
                                DriverError {
                                    error: DriverErrorType::InvalidRequest,
                                    message: "handshake required".to_string(),
                                },
                            ),
                        }
                    },
                    Protocol::Ready => {
                        self.clients.insert(id.client, conn);
                        proof {
                            self.lemma_wf_untouched(*old(self));
                        }
                        InboundAction::Reply {
                            channel: outbound_channel,
                            id,
                            body: Err(
                                DriverError {
                                    error: DriverErrorType::InvalidRequest,
                                    message: "no protocol selected".to_string(),
                                },
                            ),
                        }
                    },
                    Protocol::Custom(p) => {
                        let conn2 = ClientConnection {
                            protocol: Protocol::Custom(p),
                            enabled_protocols: conn.enabled_protocols,
                        };
                        self.clients.insert(id.client, conn2);
                        let (enabled, registered, proto_opt) = verdict;
                        let proto = match proto_opt {
                            Some(q) => q,
                            None => CustomProtocol::new(),
                        };
                        if !enabled {
                            proof {
                                self.lemma_wf_untouched(*old(self));
                            }
                            InboundAction::Reply {
                                channel: outbound_channel,
                                id,
                                body: Err(
                                    DriverError {
                                        error: DriverErrorType::BadProtocol,
                                        message: "protocol is not enabled".to_string(),
                                    },
                                ),
                            }
                        } else if registered {
                            proof {
                                self.lemma_wf_untouched(*old(self));
                            }
                            let rid = self.register_pending(id, outbound_channel);
                            InboundAction::Dispatch {
                                proto,
                                message: HandlerInboundMessage {
                                    data: payload,
                                    outbound_channel: reply_to,
                                    service_id: None,
                                    id: rid,
                                },
                            }
                        } else {
                            proof {
                                self.lemma_wf_untouched(*old(self));
                            }
                            InboundAction::Reply {
                                channel: outbound_channel,
                                id,
                                body: Err(
                                    DriverError {
                                        error: DriverErrorType::BadProtocol,
                                        message: "protocol is not known".to_string(),
                                    },
                                ),
                            }
                        }
                    },
                }
            },
        }
    }

    /// Routes one handler reply to the originating client request: a
    /// final reply consumes the pending entry, a partial reply leaves
    /// it in place, and a reply whose request id is unknown is dropped.
    /// The driver-internal request id never reaches the client: the
    /// outgoing message carries the recorded client identity instead.
    pub fn outbound_handler(&mut self, msg: HandlerOutboundMessage) -> (act: OutboundAction<C>)
        requires
            old(self).wf(),
        ensures
            final(self).wf(),
            final(self).clients_map() == old(self).clients_map(),
            final(self).handler_table() == old(self).handler_table(),
            final(self).next_request_id() == old(self).next_request_id(),
            old(self).pending_map().contains_key(msg.id.0) && msg.close ==> {
                &&& final(self).pending_map() == old(self).pending_map().remove(msg.id.0)
                &&& act matches OutboundAction::Deliver { channel, message } && channel == old(
                    self,
                ).pending_map().index(msg.id.0).1 && message.id == old(self).pending_map().index(
                    msg.id.0,
                ).0 && message.data == msg.data
            },
            old(self).pending_map().contains_key(msg.id.0) && !msg.close ==> {
                &&& final(self).pending_map() == old(self).pending_map()
                &&& act matches OutboundAction::DeliverPartial { request, message } && request
                    == msg.id && message.id == old(self).pending_map().index(msg.id.0).0
                    && message.data == msg.data
            },
            !old(self).pending_map().contains_key(msg.id.0) ==> final(self).pending_map() == old(
                self,
            ).pending_map() && act is Ignored,
    {
        let HandlerOutboundMessage { data, close, id } = msg;
        if close {
            match self.pending.remove(&id.0) {
                Some(entry) => {
                    proof {
                        self.lemma_wf_untouched(*old(self));
                    }
                    let (mid, transport) = entry;
                    OutboundAction::Deliver {
                        channel: transport,
                        message: DriverOutboundMessage { id: mid, data },
                    }
                },
                None => {
                    proof {
                        assert(self.pending_map() =~= old(self).pending_map());
                        self.lemma_wf_untouched(*old(self));
                    }
                    OutboundAction::Ignored
                },
            }
        } else {
            match self.pending.get(&id.0) {
                Some(entry) => OutboundAction::DeliverPartial {
                    request: id,
                    message: DriverOutboundMessage { id: entry.0, data },
                },
                None => OutboundAction::Ignored,
            }
        }
    }

    /// Pending entries and the id counter are as in `pre`, so the
    /// registry part of well-formedness carries over.
    proof fn lemma_wf_untouched(&self, pre: Driver<C, H>)
        requires
            pre.wf(),
            self.pending_map().submap_of(pre.pending_map()),
            self.next_request_id() >= pre.next_request_id(),
            unique_names(self.handler_table()),
        ensures
            self.wf(),
    {
        assert forall|k: u64| #[trigger] self.pending_map().contains_key(k) implies k < self
            .next_request_id() by {
            assert(pre.pending_map().contains_key(k));
        }
    }

    /// Tears down the state of a client whose reply channel failed: the
    /// connection is presumed dead. No other client is affected.
    pub fn reply_failed(&mut self, client: ClientId)
        requires
            old(self).wf(),
        ensures
            final(self).wf(),
            final(self).client_state(client) is None,
            forall|k: ClientId| k != client ==> final(self).client_state(k) == old(
                self,
            ).client_state(k),
            final(self).pending_map() == old(self).pending_map(),
            final(self).handler_table() == old(self).handler_table(),
            final(self).next_request_id() == old(self).next_request_id(),
    {
        self.clients.remove(&client);
        proof {
            assert forall|k: u64| #[trigger]
                self.pending_map().contains_key(k) implies k < self.next_request_id() by {
                assert(old(self).pending_map().contains_key(k));
            }
        }
    }
}

impl<C, H> Default for Driver<C, H> {
    /// A fresh driver instance: no clients, no pending requests, no
    /// handlers, and a request-id counter at zero.
    fn default() -> (r: Self)
        ensures
            r.wf(),
            r.clients_map() == Map::<ClientId, ClientConnection>::empty(),
            r.pending_map() == Map::<u64, (MessageId, C)>::empty(),
            r.handler_table() == Seq::<(CustomProtocol, H)>::empty(),
            r.next_request_id() == 0,
    {
        let r = Driver {
            clients: HashMap::new(),
            pending: HashMap::new(),
            handlers: Vec::new(),
            next_rid: 0,
        };
        proof {
            assert(r.handler_table() =~= Seq::<(CustomProtocol, H)>::empty());
        }
        r
    }
}

/// A client whose state is gone — disconnected, or torn down after a
/// failed reply — is judged like a brand-new connection: its next
/// message is held against the awaiting-handshake state with nothing
/// declared.
pub proof fn lemma_absent_client_starts_fresh<C, H>(d: Driver<C, H>, cid: ClientId)
    requires
        d.client_state(cid) is None,
    ensures
        d.effective_state(cid) == (ConnectionView {
            protocol: ProtocolView::AwaitingHandshake,
            enabled: Seq::<Seq<char>>::empty(),
        }),
{
}

/// The life of one pending entry under handler replies, as
/// `outbound_handler` leaves the registry: a partial reply (`d0` to
/// `d1`) leaves the entry in place, so a later reply for the same id
/// still reaches the same client identity and channel; the final reply
/// (`d1` to `d2`) consumes exactly that entry, so a third reply for
/// the id finds nothing and is dropped; and no other request's entry
/// is touched along the way.
pub proof fn lemma_reply_lifecycle<C, H>(
    d0: Driver<C, H>,
    d1: Driver<C, H>,
    d2: Driver<C, H>,
    rid: u64,
)
    requires
        d0.pending_map().contains_key(rid),
        d1.pending_map() == d0.pending_map(),
        d2.pending_map() == d1.pending_map().remove(rid),
    ensures
        d1.pending_map().contains_key(rid),
        d1.pending_map()[rid] == d0.pending_map()[rid],
        !d2.pending_map().contains_key(rid),
        forall|k: u64| k != rid ==> d2.pending_map().contains_key(k) == d0.pending_map(
        ).contains_key(k),
        forall|k: u64| k != rid && d0.pending_map().contains_key(k) ==> d2.pending_map()[k] == d0
            .pending_map()[k],
{
}

/// Request ids minted by one driver instance are strictly increasing
/// and never repeat. `ids` are the ids issued over a run, in order;
/// `counters` are the values of the instance's counter at each issue
/// and after the last. Each issue returns the counter it found and
/// leaves the counter strictly larger (`register_pending` returns
/// `next_request_id` and increments it; no operation ever lowers it),
/// which is the premise below; the conclusion is that the issued ids
/// are strictly increasing, so none repeats.
pub proof fn lemma_issued_ids_strictly_increase(ids: Seq<u64>, counters: Seq<u64>)
    requires
        counters.len() == ids.len() + 1,
        forall|i: int| 0 <= i < ids.len() ==> #[trigger] ids[i] == counters[i],
        forall|i: int| 0 <= i < ids.len() ==> (#[trigger] counters[i]) < counters[i + 1],
    ensures
        forall|i: int, j: int| 0 <= i < j < ids.len() ==> ids[i] < ids[j],
        forall|i: int, j: int| 0 <= i < j < ids.len() ==> ids[i] != ids[j],
{
    assert forall|i: int, j: int| 0 <= i < j < ids.len() implies ids[i] < ids[j] by {
        lemma_counters_monotone(counters, i, j);
        assert(ids[i] == counters[i]);
        assert(ids[j] == counters[j]);
    }
}

proof fn lemma_counters_monotone(counters: Seq<u64>, i: int, j: int)
    requires
        forall|k: int| 0 <= k < counters.len() - 1 ==> (#[trigger] counters[k]) < counters[k + 1],
        0 <= i < j < counters.len(),
    ensures
        counters[i] < counters[j],
    decreases j - i,
{
    if i + 1 < j {
        lemma_counters_monotone(counters, i + 1, j);
    }
}

} // verus!
