use almarjaa_network::{WebSocketConnection, WebSocketMessage, WebSocketServer, WebSocketState};

#[test]
fn text_and_binary_messages() {
    let t = WebSocketMessage::text("سلام");
    assert!(t.is_text);
    assert_eq!(t.data, "سلام".as_bytes().to_vec());
    assert_eq!(t.as_text(), Some("سلام"));
    assert_eq!(t.as_binary(), "سلام".as_bytes());

    let b = WebSocketMessage::binary(vec![1, 2, 3]);
    assert!(!b.is_text);
    assert_eq!(b.as_text(), None);
    assert_eq!(b.as_binary(), &[1, 2, 3]);
}

#[test]
fn text_message_with_invalid_utf8() {
    let m = WebSocketMessage { is_text: true, data: vec![0xff, 0xfe] };
    assert_eq!(m.as_text(), None);
}

#[test]
fn connection_states() {
    let mut c = WebSocketConnection::new("c1", "/chat");
    assert_eq!(c.state, WebSocketState::Connecting);
    assert_eq!(c.path, "/chat");
    assert!(!c.is_open());
    let msg = WebSocketMessage::text("hi");
    assert_eq!(c.send(&msg), Err("الاتصال غير مفتوح".to_string()));
    c.state = WebSocketState::Open;
    assert!(c.is_open());
    assert_eq!(c.send(&msg), Ok(()));
    c.close();
    assert_eq!(c.state, WebSocketState::Closed);
    assert!(c.send(&msg).is_err());
}

#[test]
fn server_without_connections() {
    let mut s = WebSocketServer::new(9000);
    assert_eq!(s.port, 9000);
    assert_eq!(s.connection_count(), 0);
    let msg = WebSocketMessage::text("x");
    s.broadcast(&msg);
    assert_eq!(
        s.send_to("abc", &msg),
        Err("الاتصال abc غير موجود".to_string())
    );
}

#[test]
fn text_messages_read_back() {
    for s in ["", "hello", "سلام عليكم", "emoji 🙂 mixed ñ"] {
        let m = WebSocketMessage::text(s);
        assert_eq!(m.as_text(), Some(s));
        assert_eq!(m.as_binary(), s.as_bytes());
    }
}
