use websocket_lite::{CloseCode, Opcode};

#[test]
fn opcodes_from_wire_values() {
    assert_eq!(Opcode::try_from(0), None);
    assert_eq!(Opcode::try_from(1), Some(Opcode::Text));
    assert_eq!(Opcode::try_from(2), Some(Opcode::Binary));
    assert_eq!(Opcode::try_from(3), None);
    assert_eq!(Opcode::try_from(8), Some(Opcode::Close));
    assert_eq!(Opcode::try_from(9), Some(Opcode::Ping));
    assert_eq!(Opcode::try_from(10), Some(Opcode::Pong));
    assert_eq!(Opcode::try_from(11), None);
    for op in [Opcode::Text, Opcode::Binary, Opcode::Close, Opcode::Ping, Opcode::Pong] {
        assert_eq!(Opcode::try_from(u8::from(op)), Some(op));
    }
}

#[test]
fn opcode_classes() {
    assert!(Opcode::Text.is_text());
    assert!(!Opcode::Binary.is_text());
    assert!(!Opcode::Text.is_control());
    assert!(!Opcode::Binary.is_control());
    assert!(Opcode::Close.is_control());
    assert!(Opcode::Ping.is_control());
    assert!(Opcode::Pong.is_control());
}

#[test]
fn close_codes() {
    assert_eq!(CloseCode::from(1000), CloseCode::Normal);
    assert_eq!(CloseCode::from(1015), CloseCode::Tls);
    assert_eq!(CloseCode::from(2000), CloseCode::Reserved(2000));
    assert_eq!(CloseCode::from(3001), CloseCode::Iana(3001));
    assert_eq!(CloseCode::from(4999), CloseCode::Library(4999));
    assert_eq!(CloseCode::from(5000), CloseCode::Bad(5000));
    assert_eq!(u16::from(CloseCode::Again), 1013);
    assert_eq!(CloseCode::Normal.to_string(), "1000");
    assert_eq!(CloseCode::Iana(3001).to_string(), "3001");
    assert!(CloseCode::Normal.is_allowed());
    assert!(CloseCode::Library(4000).is_allowed());
    assert!(!CloseCode::Status.is_allowed());
    assert!(!CloseCode::Reserved(1016).is_allowed());
}
