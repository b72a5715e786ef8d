use websocket_lite::{check_server_response, contains_ignore_ascii_case, eq_ignore_ascii_case, ClientRequest, HttpResponse, UpgradeCodec};

fn headers(pairs: &[(&str, &str)]) -> Vec<(Vec<u8>, Vec<u8>)> {
    pairs.iter().map(|(n, v)| (n.as_bytes().to_vec(), v.as_bytes().to_vec())).collect()
}

#[test]
fn does_not_contain() {
    assert!(!contains_ignore_ascii_case(b"World", b"hello"));
}

#[test]
fn contains_exact() {
    assert!(contains_ignore_ascii_case(b"Hello", b"hello"));
}

#[test]
fn contains_substring() {
    assert!(contains_ignore_ascii_case(b"Hello World", b"hello"));
}

#[test]
fn contains_empty_and_longer_needle() {
    assert!(contains_ignore_ascii_case(b"", b""));
    assert!(!contains_ignore_ascii_case(b"up", b"upgrade"));
    assert!(contains_ignore_ascii_case(b"keep-alive, UPGRADE", b"Upgrade"));
}

#[test]
fn equal_ignoring_case() {
    assert!(eq_ignore_ascii_case(b"WebSocket", b"websocket"));
    assert!(!eq_ignore_ascii_case(b"websockets", b"websocket"));
    assert!(!eq_ignore_ascii_case(b"[", b"{"));
}

#[test]
fn server_computes_accept_token() {
    let request = ClientRequest::parse(&headers(&[
        ("upgrade", "WebSocket"),
        ("Connection", "keep-alive, Upgrade"),
        ("Sec-WebSocket-Version", "13"),
        ("Sec-WebSocket-Key", "dGhlIHNhbXBsZSBub25jZQ=="),
    ]))
    .unwrap();
    assert_eq!(request.ws_accept(), "s3pPLMBiTxaQ9kYGzzhZRbK+xOo=");
    let mut s = "Sec-WebSocket-Accept: ".to_string();
    request.ws_accept_buf(&mut s);
    assert_eq!(s, "Sec-WebSocket-Accept: s3pPLMBiTxaQ9kYGzzhZRbK+xOo=");
}

#[test]
fn server_refuses_bad_requests() {
    let err = |pairs: &[(&str, &str)]| match ClientRequest::parse(&headers(pairs)) {
        Err(e) => e.to_string(),
        Ok(_) => panic!("expected the request to be refused"),
    };
    assert_eq!(err(&[]), "client didn't provide Upgrade header");
    assert_eq!(
        err(&[("Upgrade", "h2c")]),
        "client provided incorrect Upgrade header: expected websocket, got h2c"
    );
    assert_eq!(
        err(&[("Upgrade", "websocket"), ("Connection", "close")]),
        "client provided incorrect Connection header: expected string containing Upgrade, got close"
    );
    assert_eq!(
        err(&[("Upgrade", "websocket"), ("Connection", "Upgrade"), ("Sec-WebSocket-Version", "8")]),
        "client provided incorrect Sec-WebSocket-Version header: expected 13, got 8"
    );
    assert_eq!(
        err(&[("Upgrade", "websocket"), ("Connection", "Upgrade"), ("Sec-WebSocket-Version", "13")]),
        "client didn't provide Sec-WebSocket-Key header"
    );
}

#[test]
fn response_checks() {
    let expected = {
        let request = ClientRequest::parse(&headers(&[
            ("Upgrade", "websocket"),
            ("Connection", "Upgrade"),
            ("Sec-WebSocket-Version", "13"),
            ("Sec-WebSocket-Key", "dGhlIHNhbXBsZSBub25jZQ=="),
        ]))
        .unwrap();
        request.ws_accept()
    };
    assert_eq!(expected, "s3pPLMBiTxaQ9kYGzzhZRbK+xOo=");
    let digest = [
        0xb3u8, 0x7a, 0x4f, 0x2c, 0xc0, 0x62, 0x4f, 0x16, 0x90, 0xf6, 0x46, 0x06, 0xcf, 0x38, 0x59, 0x45, 0xb2, 0xbe,
        0xc4, 0xea,
    ];
    let response = |code: u16, hs: &[(&str, &str)]| HttpResponse {
        len: 77,
        code,
        reason: Some("Nope".to_string()),
        headers: headers(hs),
    };
    assert_eq!(check_server_response(&digest, &response(101, &[("sec-websocket-accept", &expected)])), Ok(77));
    assert_eq!(
        check_server_response(&digest, &response(404, &[])).unwrap_err().to_string(),
        "server responded with HTTP error 404: \"Nope\""
    );
    assert_eq!(
        check_server_response(&digest, &response(101, &[])).unwrap_err().to_string(),
        "server didn't respond with Sec-WebSocket-Accept header"
    );
    assert_eq!(
        check_server_response(&digest, &response(101, &[("Sec-WebSocket-Accept", "***")])).unwrap_err().to_string(),
        "server's Sec-WebSocket-Accept header is not valid base64"
    );
    assert_eq!(
        check_server_response(&digest, &response(101, &[("Sec-WebSocket-Accept", "AAAA")])).unwrap_err().to_string(),
        "server responded with incorrect Sec-WebSocket-Accept header: expected s3pPLMBiTxaQ9kYGzzhZRbK+xOo=, got AAAA"
    );
}

#[test]
fn upgrade_codec_waits_for_whole_response() {
    let response = b"HTTP/1.1 101 Switching Protocols\r\nsec-websocket-accept: s3pPLMBiTxaQ9kYGzzhZRbK+xOo=\r\n\r\n";
    let mut codec = UpgradeCodec::new("dGhlIHNhbXBsZSBub25jZQ==");
    assert_eq!(codec.decode(&response[..20]), Ok(None));
    assert_eq!(codec.decode(response), Ok(Some(response.len())));
    assert_eq!(codec.decode(b"garbage\r\n\r\n").unwrap_err().to_string(), "server's response is not valid HTTP");
}
