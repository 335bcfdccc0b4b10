use protocol_driver::DriverError;
use protocol_driver::DriverErrorType;
use protocol_driver::DriverOutboundMessage;
use protocol_driver::HandlerOutboundMessage;
use protocol_driver::MessageId;
use protocol_driver::RequestId;

#[test]
fn message_id_carries_its_parts() {
    let id = MessageId::new(5, 9);
    assert_eq!(id.client, 5);
    assert_eq!(id.correlation, 9);
    assert_eq!(id, MessageId::new(5, 9));
    assert_ne!(id, MessageId::new(5, 10));
}

#[test]
fn outbound_constructors_build_the_stated_payloads() {
    let id = MessageId::new(1, 2);
    let ok = DriverOutboundMessage::ok(id, b"fine".to_vec());
    assert_eq!(ok.id, id);
    assert_eq!(ok.data, Ok(b"fine".to_vec()));
    let err = DriverOutboundMessage::error(id, DriverErrorType::NotFound, "missing");
    assert_eq!(err.id, id);
    assert_eq!(
        err.data,
        Err(DriverError { error: DriverErrorType::NotFound, message: "missing".to_string() })
    );
}

#[test]
fn handler_outbound_constructors_set_the_close_flag() {
    let ok = HandlerOutboundMessage::ok(RequestId(1), b"r".to_vec());
    assert!(ok.close);
    assert!(ok.is_ok());
    assert!(!ok.is_err());
    assert_eq!(ok.id, RequestId(1));
    let part = HandlerOutboundMessage::partial(RequestId(2), b"r".to_vec());
    assert!(!part.close);
    assert!(part.is_ok());
    let err = HandlerOutboundMessage::error(RequestId(3), DriverErrorType::Conflict, "clash");
    assert!(err.close);
    assert!(err.is_err());
    assert!(!err.is_ok());
    match err.data {
        Err(e) => {
            assert_eq!(e.error, DriverErrorType::Conflict);
            assert_eq!(e.message, "clash".to_string());
        }
        Ok(_) => panic!("expected an error payload"),
    }
}
