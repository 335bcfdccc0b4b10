use protocol_driver::Driver;
use protocol_driver::DriverErrorType;
use protocol_driver::DriverInboundData;
use protocol_driver::DriverInboundMessage;
use protocol_driver::DriverInboundReply;
use protocol_driver::HandlerOutboundMessage;
use protocol_driver::InboundAction;
use protocol_driver::MessageId;
use protocol_driver::OutboundAction;

// The driver is generic over the channel handles it stores; tests use
// small integer tokens so actions can be checked for the exact handle
// they carry.
type TestDriver = Driver<u32, u8>;

fn msg(client: u64, correlation: u64, channel: u32, data: DriverInboundData) -> DriverInboundMessage<u32> {
    DriverInboundMessage { data, outbound_channel: channel, id: MessageId::new(client, correlation) }
}

fn expect_error(act: InboundAction<u32, u8>, channel: u32, kind: DriverErrorType) {
    match act {
        InboundAction::Reply { channel: c, body: Err(e), .. } => {
            assert_eq!(c, channel);
            assert_eq!(e.error, kind);
        }
        _ => panic!("expected an error reply"),
    }
}

#[test]
fn it_works() {
    assert_eq!(2 + 2, 4);
}

#[test]
fn message_before_connect_is_invalid_request() {
    let mut d = TestDriver::default();
    let act = d.inbound_handler(msg(1, 1, 10, DriverInboundData::Message(b"hi".to_vec())), 0u8);
    expect_error(act, 10, DriverErrorType::InvalidRequest);
    let act = d.inbound_handler(msg(1, 2, 11, DriverInboundData::Select("kv".to_string())), 0u8);
    expect_error(act, 11, DriverErrorType::InvalidRequest);
    let act = d.inbound_handler(
        msg(1, 3, 12, DriverInboundData::As("kv".to_string(), b"hi".to_vec())),
        0u8,
    );
    expect_error(act, 12, DriverErrorType::InvalidRequest);
    // the client is still awaiting its handshake: Connect succeeds
    let act = d.inbound_handler(
        msg(1, 4, 13, DriverInboundData::Connect(vec!["kv".to_string()])),
        0u8,
    );
    match act {
        InboundAction::Reply { channel, body: Ok(DriverInboundReply::Connected(ps)), .. } => {
            assert_eq!(channel, 13);
            assert_eq!(ps, vec!["kv".to_string()]);
        }
        _ => panic!("expected Connected"),
    }
}

#[test]
fn connect_then_select_acknowledges_in_order() {
    let mut d = TestDriver::default();
    let first = d.inbound_handler(
        msg(7, 1, 20, DriverInboundData::Connect(vec!["kv".to_string()])),
        0u8,
    );
    match first {
        InboundAction::Reply { id, body: Ok(DriverInboundReply::Connected(ps)), .. } => {
            assert_eq!(id, MessageId::new(7, 1));
            assert_eq!(ps, vec!["kv".to_string()]);
        }
        _ => panic!("expected Connected"),
    }
    let second = d.inbound_handler(msg(7, 2, 21, DriverInboundData::Select("kv".to_string())), 0u8);
    match second {
        InboundAction::Reply { id, body: Ok(DriverInboundReply::Selected(p)), .. } => {
            assert_eq!(id, MessageId::new(7, 2));
            assert_eq!(p, "kv".to_string());
        }
        _ => panic!("expected Selected"),
    }
    // the selection stuck: a message for the selected protocol is now
    // judged against "kv" (no handler registered here, so BadProtocol)
    let third = d.inbound_handler(msg(7, 3, 22, DriverInboundData::Message(b"x".to_vec())), 0u8);
    expect_error(third, 22, DriverErrorType::BadProtocol);
}

#[test]
fn select_undeclared_protocol_is_bad_protocol() {
    let mut d = TestDriver::default();
    d.register_handler("pubsub".to_string(), 1u8);
    d.inbound_handler(msg(1, 1, 30, DriverInboundData::Connect(vec!["kv".to_string()])), 0u8);
    // never declared, so rejected even though a handler exists
    let act = d.inbound_handler(msg(1, 2, 31, DriverInboundData::Select("pubsub".to_string())), 0u8);
    expect_error(act, 31, DriverErrorType::BadProtocol);
    // state unchanged: a declared protocol can still be selected
    let act = d.inbound_handler(msg(1, 3, 32, DriverInboundData::Select("kv".to_string())), 0u8);
    match act {
        InboundAction::Reply { body: Ok(DriverInboundReply::Selected(p)), .. } => {
            assert_eq!(p, "kv".to_string());
        }
        _ => panic!("expected Selected"),
    }
}

#[test]
fn dispatch_and_final_reply_round_trip() {
    let mut d = TestDriver::default();
    d.register_handler("kv".to_string(), 5u8);
    d.inbound_handler(msg(3, 1, 40, DriverInboundData::Connect(vec!["kv".to_string()])), 0u8);
    d.inbound_handler(msg(3, 2, 41, DriverInboundData::Select("kv".to_string())), 0u8);
    let act = d.inbound_handler(
        msg(3, 3, 42, DriverInboundData::Message(b"payload".to_vec())),
        9u8,
    );
    let rid = match act {
        InboundAction::Dispatch { proto, message } => {
            assert_eq!(proto, "kv".to_string());
            // the payload reaches the handler unmodified
            assert_eq!(message.data, b"payload".to_vec());
            assert_eq!(message.service_id, None);
            assert_eq!(message.outbound_channel, 9u8);
            message.id
        }
        _ => panic!("expected Dispatch"),
    };
    // the very first dispatch of this instance carries id zero
    assert_eq!(rid, protocol_driver::RequestId(0));
    // exactly one pending entry was recorded for the minted id
    assert_eq!(d.pending_channel(rid), Some(&42));
    let reply = HandlerOutboundMessage::ok(rid, b"result".to_vec());
    match d.outbound_handler(reply) {
        OutboundAction::Deliver { channel, message } => {
            assert_eq!(channel, 42);
            // delivered under the original client identity, not the rid
            assert_eq!(message.id, MessageId::new(3, 3));
            assert_eq!(message.data, Ok(b"result".to_vec()));
        }
        _ => panic!("expected Deliver"),
    }
    // the entry is gone
    assert_eq!(d.pending_channel(rid), None);
}

#[test]
fn partial_replies_keep_the_entry_until_final() {
    let mut d = TestDriver::default();
    d.register_handler("kv".to_string(), 5u8);
    d.inbound_handler(msg(4, 1, 50, DriverInboundData::Connect(vec!["kv".to_string()])), 0u8);
    d.inbound_handler(msg(4, 2, 51, DriverInboundData::Select("kv".to_string())), 0u8);
    let act = d.inbound_handler(msg(4, 3, 52, DriverInboundData::Message(b"q".to_vec())), 0u8);
    let rid = match act {
        InboundAction::Dispatch { message, .. } => message.id,
        _ => panic!("expected Dispatch"),
    };
    let partial = HandlerOutboundMessage::partial(rid, b"part".to_vec());
    match d.outbound_handler(partial) {
        OutboundAction::DeliverPartial { request, message } => {
            assert_eq!(request, rid);
            assert_eq!(message.id, MessageId::new(4, 3));
            assert_eq!(message.data, Ok(b"part".to_vec()));
        }
        _ => panic!("expected DeliverPartial"),
    }
    // the entry survived the partial reply
    assert_eq!(d.pending_channel(rid), Some(&52));
    let fin = HandlerOutboundMessage::ok(rid, b"done".to_vec());
    match d.outbound_handler(fin) {
        OutboundAction::Deliver { channel, .. } => assert_eq!(channel, 52),
        _ => panic!("expected Deliver"),
    }
    // a third reply for the now-removed id is dropped
    let stale = HandlerOutboundMessage::ok(rid, b"again".to_vec());
    assert!(matches!(d.outbound_handler(stale), OutboundAction::Ignored));
    // and no other client was affected: the same client is still selected
    let act = d.inbound_handler(msg(4, 4, 53, DriverInboundData::Message(b"q2".to_vec())), 0u8);
    assert!(matches!(act, InboundAction::Dispatch { .. }));
}

#[test]
fn as_message_dispatches_regardless_of_selection() {
    let mut d = TestDriver::default();
    d.register_handler("db".to_string(), 6u8);
    d.inbound_handler(msg(5, 1, 60, DriverInboundData::Connect(vec!["kv".to_string()])), 0u8);
    // As targets its own protocol even though nothing is selected
    let act = d.inbound_handler(
        msg(5, 2, 61, DriverInboundData::As("db".to_string(), b"x".to_vec())),
        0u8,
    );
    match act {
        InboundAction::Dispatch { proto, message } => {
            assert_eq!(proto, "db".to_string());
            assert_eq!(message.data, b"x".to_vec());
        }
        _ => panic!("expected Dispatch"),
    }
    // an As for an unregistered protocol is rejected
    let act = d.inbound_handler(
        msg(5, 3, 62, DriverInboundData::As("nope".to_string(), b"x".to_vec())),
        0u8,
    );
    expect_error(act, 62, DriverErrorType::BadProtocol);
}

#[test]
fn second_connect_is_rejected() {
    let mut d = TestDriver::default();
    d.inbound_handler(msg(6, 1, 70, DriverInboundData::Connect(vec!["kv".to_string()])), 0u8);
    let act = d.inbound_handler(
        msg(6, 2, 71, DriverInboundData::Connect(vec!["db".to_string()])),
        0u8,
    );
    expect_error(act, 71, DriverErrorType::InvalidRequest);
    d.inbound_handler(msg(6, 3, 72, DriverInboundData::Select("kv".to_string())), 0u8);
    let act = d.inbound_handler(
        msg(6, 4, 73, DriverInboundData::Connect(vec!["db".to_string()])),
        0u8,
    );
    expect_error(act, 73, DriverErrorType::InvalidRequest);
}

#[test]
fn message_with_no_selection_is_invalid_request() {
    let mut d = TestDriver::default();
    d.register_handler("kv".to_string(), 5u8);
    d.inbound_handler(msg(8, 1, 80, DriverInboundData::Connect(vec!["kv".to_string()])), 0u8);
    let act = d.inbound_handler(msg(8, 2, 81, DriverInboundData::Message(b"x".to_vec())), 0u8);
    expect_error(act, 81, DriverErrorType::InvalidRequest);
}

#[test]
fn disconnect_removes_the_connection() {
    let mut d = TestDriver::default();
    d.register_handler("kv".to_string(), 5u8);
    d.inbound_handler(msg(9, 1, 90, DriverInboundData::Connect(vec!["kv".to_string()])), 0u8);
    d.inbound_handler(msg(9, 2, 91, DriverInboundData::Select("kv".to_string())), 0u8);
    let act = d.inbound_handler(msg(9, 3, 92, DriverInboundData::Disconnect), 0u8);
    assert!(matches!(act, InboundAction::Disconnected));
    // the same client id now starts over, awaiting a handshake
    let act = d.inbound_handler(msg(9, 4, 93, DriverInboundData::Message(b"x".to_vec())), 0u8);
    expect_error(act, 93, DriverErrorType::InvalidRequest);
    let act = d.inbound_handler(
        msg(9, 5, 94, DriverInboundData::Connect(vec!["db".to_string()])),
        0u8,
    );
    match act {
        InboundAction::Reply { body: Ok(DriverInboundReply::Connected(ps)), .. } => {
            assert_eq!(ps, vec!["db".to_string()]);
        }
        _ => panic!("expected Connected"),
    }
}

#[test]
fn reply_failure_tears_down_only_that_client() {
    let mut d = TestDriver::default();
    d.inbound_handler(msg(1, 1, 100, DriverInboundData::Connect(vec!["kv".to_string()])), 0u8);
    d.inbound_handler(msg(2, 1, 101, DriverInboundData::Connect(vec!["kv".to_string()])), 0u8);
    d.reply_failed(1);
    // client 1 is gone: back to awaiting-handshake
    let act = d.inbound_handler(msg(1, 2, 102, DriverInboundData::Select("kv".to_string())), 0u8);
    expect_error(act, 102, DriverErrorType::InvalidRequest);
    // client 2 is untouched
    let act = d.inbound_handler(msg(2, 2, 103, DriverInboundData::Select("kv".to_string())), 0u8);
    assert!(matches!(
        act,
        InboundAction::Reply { body: Ok(DriverInboundReply::Selected(_)), .. }
    ));
}

#[test]
fn request_ids_are_strictly_increasing_and_unique() {
    let mut d = TestDriver::default();
    d.register_handler("kv".to_string(), 5u8);
    d.inbound_handler(msg(1, 1, 110, DriverInboundData::Connect(vec!["kv".to_string()])), 0u8);
    d.inbound_handler(msg(1, 2, 111, DriverInboundData::Select("kv".to_string())), 0u8);
    d.inbound_handler(msg(2, 1, 112, DriverInboundData::Connect(vec!["kv".to_string()])), 0u8);
    let mut rids = Vec::new();
    for i in 0..5u64 {
        let source = if i % 2 == 0 {
            msg(1, 10 + i, 113, DriverInboundData::Message(b"m".to_vec()))
        } else {
            msg(2, 10 + i, 114, DriverInboundData::As("kv".to_string(), b"m".to_vec()))
        };
        match d.inbound_handler(source, 0u8) {
            InboundAction::Dispatch { message, .. } => rids.push(message.id),
            _ => panic!("expected Dispatch"),
        }
    }
    for w in rids.windows(2) {
        assert!(w[0].0 < w[1].0);
    }
    for (i, a) in rids.iter().enumerate() {
        for b in rids.iter().skip(i + 1) {
            assert_ne!(a, b);
        }
    }
}

#[test]
fn register_handler_last_registration_wins() {
    let mut d = TestDriver::default();
    d.register_handler("kv".to_string(), 1u8);
    d.register_handler("kv".to_string(), 2u8);
    assert_eq!(d.handler_channel(&"kv".to_string()), Some(&2u8));
    assert!(d.has_handler(&"kv".to_string()));
    assert!(!d.has_handler(&"db".to_string()));
    assert_eq!(d.handler_channel(&"db".to_string()), None);
}

#[test]
fn unknown_request_id_reply_is_ignored() {
    let mut d = TestDriver::default();
    let stale = HandlerOutboundMessage::error(
        protocol_driver::RequestId(99),
        DriverErrorType::NotFound,
        "nothing",
    );
    assert!(matches!(d.outbound_handler(stale), OutboundAction::Ignored));
}
