use netshare::parse::{classify, message_kind, Message, MessageKind, Parser, Reply};

#[test]
fn classify_by_rtype() {
    assert_eq!(classify(r#"{"rtype":"connect","id":"1","nickname":"Bob"}"#), MessageKind::Connect);
    assert_eq!(classify(r#"{"rtype":"controls","id":"1","data":{"a":1.0}}"#), MessageKind::Controls);
    assert_eq!(classify(r#"{"id":"1","rtype":"disconnect"}"#), MessageKind::Disconnect);
    assert_eq!(classify(r#"{"rtype":"get_audio"}"#), MessageKind::GetAudio);
    assert_eq!(classify(r#"{"rtype":"ping"}"#), MessageKind::Other);
    assert_eq!(classify(r#"{"rtype":5}"#), MessageKind::Other);
    assert_eq!(classify(r#"{"kind":"connect"}"#), MessageKind::Other);
    assert_eq!(classify("not json"), MessageKind::Other);
    assert_eq!(classify(r#"["rtype"]"#), MessageKind::Other);
}

#[test]
fn kind_of_rtype() {
    assert_eq!(message_kind(Some("connect")), MessageKind::Connect);
    assert_eq!(message_kind(Some("Connect")), MessageKind::Other);
    assert_eq!(message_kind(None), MessageKind::Other);
}

#[test]
fn parser_keeps_clients() {
    let mut p: Parser<u32> = Parser::new();
    assert!(matches!(p.parse(Message::Connect { id: "1".to_string(), device: 10 }), Reply::Nothing));
    assert!(matches!(p.parse(Message::Connect { id: "2".to_string(), device: 20 }), Reply::Nothing));
    assert_eq!(p.host().len(), 2);
    match p.parse(Message::Controls { id: "2".to_string(), readings: vec![("a".to_string(), 1)] }) {
        Reply::Deliver { client, readings } => {
            assert_eq!(client, 1);
            assert_eq!(readings, vec![("a".to_string(), 1)]);
        }
        _ => panic!("readings for a connected client are delivered"),
    }
    assert!(matches!(p.parse(Message::Controls { id: "3".to_string(), readings: vec![] }), Reply::Nothing));
    assert!(matches!(p.parse(Message::GetAudio), Reply::OpenPicker));
    assert!(matches!(p.parse(Message::Other), Reply::Nothing));
    assert!(matches!(p.parse(Message::Disconnect { id: "1".to_string() }), Reply::Nothing));
    assert_eq!(p.host().len(), 1);
    assert_eq!(p.host().client(0).get_id(), "2");
    assert!(matches!(p.parse(Message::Disconnect { id: "1".to_string() }), Reply::Nothing));
    assert_eq!(p.host_mut().len(), 1);
}
