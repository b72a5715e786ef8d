use websocket_lite::{build_request, make_key, ClientBuilder, UrlParts};

static REQUEST: &str = "GET /stream?query HTTP/1.1\r\n\
                        Host: localhost:8000\r\n\
                        Upgrade: websocket\r\n\
                        Connection: Upgrade\r\n\
                        Sec-WebSocket-Key: dGhlIHNhbXBsZSBub25jZQ==\r\n\
                        Sec-WebSocket-Version: 13\r\n\
                        \r\n";

static RESPONSE: &str = "HTTP/1.1 101 Switching Protocols\r\n\
                         Upgrade: websocket\r\n\
                         Connection: Upgrade\r\n\
                         sec-websocket-accept: s3pPLMBiTxaQ9kYGzzhZRbK+xOo=\r\n\
                         \r\n";

// the sixteen key bytes whose base64 text is dGhlIHNhbXBsZSBub25jZQ==
const KEY: &[u8] = b"the sample nonce";

#[test]
fn client_can_connect_on() {
    let builder = ClientBuilder::new("ws://localhost:8000/stream?query").unwrap().key(KEY);
    let (request, mut codec) = builder.handshake();
    assert_eq!(REQUEST, request);
    assert_eq!(codec.decode(RESPONSE.as_bytes()), Ok(Some(RESPONSE.len())));
}

#[test]
fn client_can_async_connect_on() {
    let (request, mut codec) = ClientBuilder::new("ws://localhost:8000/stream?query").unwrap().key(KEY).handshake();
    assert_eq!(REQUEST, request);
    assert_eq!(codec.decode(&RESPONSE.as_bytes()[..40]), Ok(None));
    assert_eq!(codec.decode(RESPONSE.as_bytes()), Ok(Some(RESPONSE.len())));
}

#[test]
fn pinned_key_is_base64() {
    assert_eq!(make_key(Some(*b"the sample nonce")), "dGhlIHNhbXBsZSBub25jZQ==");
    assert_eq!(make_key(None).len(), 24);
}

#[test]
fn request_with_extra_headers_and_default_port() {
    let mut builder = ClientBuilder::new("wss://example.com/chat").unwrap().key(KEY);
    builder.add_header("Origin".to_string(), "https://example.com".to_string());
    builder.add_header("X-Token".to_string(), "abc".to_string());
    let (request, _) = builder.handshake();
    assert_eq!(
        request,
        "GET /chat HTTP/1.1\r\nHost: example.com:443\r\nUpgrade: websocket\r\nConnection: Upgrade\r\n\
         Sec-WebSocket-Key: dGhlIHNhbXBsZSBub25jZQ==\r\nSec-WebSocket-Version: 13\r\n\
         Origin: https://example.com\r\nX-Token: abc\r\n\r\n"
    );
}

#[test]
fn request_from_parts() {
    let url = UrlParts {
        scheme: "ws".to_string(),
        host: Some("[::1]".to_string()),
        port: Some(9001),
        path: "/".to_string(),
        query: None,
    };
    assert_eq!(
        build_request(&url, "a2V5", &[]),
        "GET / HTTP/1.1\r\nHost: [::1]:9001\r\nUpgrade: websocket\r\nConnection: Upgrade\r\n\
         Sec-WebSocket-Key: a2V5\r\nSec-WebSocket-Version: 13\r\n\r\n"
    );
}

#[test]
fn malformed_url_is_refused() {
    assert!(ClientBuilder::new("not a url").is_err());
}

#[test]
fn response_with_wrong_key_is_refused() {
    let (_, mut codec) = ClientBuilder::new("ws://localhost:8000/").unwrap().key(b"another nonce 16").handshake();
    let err = codec.decode(RESPONSE.as_bytes()).unwrap_err().to_string();
    assert!(err.starts_with("server responded with incorrect Sec-WebSocket-Accept header"));
}
