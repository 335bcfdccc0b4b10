//! A key-value interceptor: the one concrete example of the capability
//! a backend integration implements.
//!
//! The interceptor turns a decoded client request into the backend
//! event the key-value service consumes, tags it with the service's
//! id, and remembers which application-level correlation id each
//! driver-internal request id stands for, so that the reply can cite
//! the application-level id when the driver finalizes the request.

use vstd::prelude::*;
use std::collections::HashMap;
use crate::ids::RequestId;
use crate::ids::ServiceId;
use crate::messages::DriverErrorType;

verus! {

broadcast use vstd::std_specs::hash::group_hash_axioms;

/// The backend service id key-value requests are tagged with.
pub const KV_SERVICE: u64 = 1;

/// A decoded key-value request. `rid` is the application-level request
/// id embedded in the payload by the client, distinct from both the
/// transport correlation id and the driver-internal request id.
pub enum KvRequest {
    Get { key: String, rid: RequestId },
    Put { key: String, store: String, rid: RequestId },
    Delete { key: String, rid: RequestId },
    Cas { key: String, check: Option<String>, store: String, rid: RequestId },
}

impl KvRequest {
    /// The application-level request id embedded in the request.
    pub open spec fn spec_rid(self) -> RequestId {
        match self {
            KvRequest::Get { rid, .. } => rid,
            KvRequest::Put { rid, .. } => rid,
            KvRequest::Delete { rid, .. } => rid,
            KvRequest::Cas { rid, .. } => rid,
        }
    }
}

/// The event handed on to the key-value service: the request with the
/// application-level id stripped off.
pub enum KvEvent {
    Get { key: String },
    Put { key: String, store: String },
    Delete { key: String },
    Cas { key: String, check: Option<String>, store: String },
}

/// The event a request maps to.
pub open spec fn event_of(req: KvRequest) -> KvEvent {
    match req {
        KvRequest::Get { key, rid } => KvEvent::Get { key },
        KvRequest::Put { key, store, rid } => KvEvent::Put { key, store },
        KvRequest::Delete { key, rid } => KvEvent::Delete { key },
        KvRequest::Cas { key, check, store, rid } => KvEvent::Cas { key, check, store },
    }
}

/// What the interceptor decides about one inbound message.
pub enum InterceptReply {
    /// Hand this event to the service carrying this id.
    Forward { event: KvEvent, service: ServiceId },
    /// The payload did not decode into a request: answer the client
    /// with an error of this kind and hand nothing on.
    Failed(DriverErrorType),
}

/// The key-value interceptor's own state: for each driver-internal
/// request id still in flight, the application-level id its reply must
/// cite.
pub struct Handler {
    ids: HashMap<u64, RequestId>,
}

impl Handler {
    /// The id-mapping state: driver-internal id to application-level id.
    pub closed spec fn ids_map(self) -> Map<u64, RequestId> {
        self.ids@
    }
}

impl Default for Handler {
    /// A fresh interceptor remembers no ids.
    fn default() -> (r: Self)
        ensures
            r.ids_map() == Map::<u64, RequestId>::empty(),
    {
        Handler { ids: HashMap::new() }
    }
}

impl Handler {
    /// Accepts one inbound message, already decoded by the wire layer:
    /// `id` is the driver-internal request id, `request` the decoded
    /// payload or `None` when it did not parse. On success the
    /// application-level id is recorded under `id` and the stripped
    /// event is forwarded, tagged for the key-value service; a payload
    /// that did not decode is classified as `BadInput` and nothing is
    /// recorded.
    pub fn inbound(&mut self, id: RequestId, request: Option<KvRequest>) -> (r: InterceptReply)
        ensures
            request matches Some(req) ==> final(self).ids_map() == old(self).ids_map().insert(
                id.0,
                req.spec_rid(),
            ) && r == (InterceptReply::Forward {
                event: event_of(req),
                service: ServiceId(KV_SERVICE),
            }),
            request is None ==> final(self).ids_map() == old(self).ids_map() && r
                == InterceptReply::Failed(DriverErrorType::BadInput),
    {
        match request {
            Some(req) => {
                let event = match req {
                    KvRequest::Get { key, rid } => {
                        self.ids.insert(id.0, rid);
                        KvEvent::Get { key }
                    },
                    KvRequest::Put { key, store, rid } => {
                        self.ids.insert(id.0, rid);
                        KvEvent::Put { key, store }
                    },
                    KvRequest::Delete { key, rid } => {
                        self.ids.insert(id.0, rid);
                        KvEvent::Delete { key }
                    },
                    KvRequest::Cas { key, check, store, rid } => {
                        self.ids.insert(id.0, rid);
                        KvEvent::Cas { key, check, store }
                    },
                };
                InterceptReply::Forward { event, service: ServiceId(KV_SERVICE) }
            },
            None => InterceptReply::Failed(DriverErrorType::BadInput),
        }
    }

    /// Yields, and consumes, the application-level id recorded for a
    /// request the driver is about to finalize.
    pub fn result_id_map(&mut self, id: RequestId) -> (r: Option<RequestId>)
        ensures
            final(self).ids_map() == old(self).ids_map().remove(id.0),
            r matches Some(rid) ==> old(self).ids_map().contains_key(id.0) && rid == old(
                self,
            ).ids_map()[id.0],
            r is None ==> !old(self).ids_map().contains_key(id.0),
    {
        self.ids.remove(&id.0)
    }
}

} // verus!
