//! Identifier types crossing the driver's boundaries.
//!
//! A client request is identified towards the transport by a
//! `(ClientId, CorrelationId)` pair; towards a backend handler it is
//! identified by a driver-minted `RequestId` that never leaks to the
//! client.

use vstd::prelude::*;

verus! {

/// Identifies one client connection; chosen by the transport.
pub type ClientId = u64;

/// Identifies one in-flight request on the client's own side; chosen by
/// the client or its transport and echoed back verbatim.
pub type CorrelationId = u64;

/// A driver-internal request identifier, minted by the pending-registry
/// insertion operation and used only between driver and handlers.
#[derive(Hash, PartialEq, Eq, Clone, Copy, Debug, Structural)]
pub struct RequestId(pub u64);

/// Identifies the backend service an interceptor tags a request for.
#[derive(Hash, PartialEq, Eq, Clone, Copy, Debug, Structural)]
pub struct ServiceId(pub u64);

/// Uniquely identifies one in-flight request from one client connection.
#[derive(Hash, PartialEq, Eq, Clone, Copy, Debug, Structural)]
pub struct MessageId {
    pub client: ClientId,
    pub correlation: CorrelationId,
}

impl MessageId {
    pub fn new(client: ClientId, correlation: CorrelationId) -> (r: Self)
        ensures
            r.client == client,
            r.correlation == correlation,
    {
        Self { client, correlation }
    }
}

} // verus!
