use ate::connect::connect_retry;
use ate::connect::is_disconnect_kind;
use ate::connect::next_backoff;
use ate::connect::session_source;
use ate::connect::IoKind;
use ate::connect::RetryDecision;
use ate::connect::SessionSource;
use ate::crypto::EncryptKey;
use ate::crypto::KeySize;
use ate::errors::CommsError;
use ate::stream::read_16bit;
use ate::stream::read_32bit;
use ate::stream::read_8bit;
use ate::stream::recv_frame;
use ate::stream::send_frame;
use ate::stream::upgrade_action;
use ate::stream::write_16bit;
use ate::stream::write_32bit;
use ate::stream::write_8bit;
use ate::stream::StreamProtocol;
use ate::stream::UpgradeAction;

#[test]
fn protocol_schemes_and_ports() {
    assert_eq!(StreamProtocol::Tcp.to_scheme(), "tcp");
    assert_eq!(StreamProtocol::WebSocket.to_scheme(), "ws");
    assert_eq!(StreamProtocol::Tcp.to_string(), "tcp");
    assert_eq!(StreamProtocol::Tcp.default_port(), 5000);
    assert_eq!(StreamProtocol::WebSocket.default_port(), 80);
    assert!(StreamProtocol::Tcp.is_tcp());
    assert!(!StreamProtocol::Tcp.is_web_socket());
    assert!(StreamProtocol::WebSocket.is_web_socket());
    assert!(!StreamProtocol::WebSocket.is_tcp());
}

#[test]
fn protocol_parsing() {
    assert!(matches!(
        StreamProtocol::from_str("tcp"),
        Ok(StreamProtocol::Tcp)
    ));
    assert!(matches!(
        StreamProtocol::from_str("ws"),
        Ok(StreamProtocol::WebSocket)
    ));
    assert!(matches!(
        StreamProtocol::from_str("http"),
        Err(CommsError::UnsupportedProtocolError(_))
    ));
}

#[test]
fn urls_are_built_and_parsed_back() {
    // The port is written out exactly when it equals the default.
    let u = StreamProtocol::Tcp
        .make_url("example.com".to_owned(), 5000, "path".to_owned())
        .unwrap();
    assert_eq!(u.as_str(), "tcp://example.com:5000/path");
    let v = StreamProtocol::Tcp
        .make_url("example.com".to_owned(), 4001, "path".to_owned())
        .unwrap();
    assert_eq!(v.as_str(), "tcp://example.com/path");
    let w = StreamProtocol::WebSocket
        .make_url("localhost".to_owned(), 8080, "/".to_owned())
        .unwrap();
    assert_eq!(w.as_str(), "ws://localhost/");
    assert!(matches!(
        StreamProtocol::parse(&w),
        Ok(StreamProtocol::WebSocket)
    ));
}

#[test]
fn length_prefixed_frames_round_trip() {
    let data = vec![5u8, 6u8, 7u8];
    let f8 = write_8bit(&data).unwrap();
    assert_eq!(f8, vec![3u8, 5u8, 6u8, 7u8]);
    let (p, next) = read_8bit(&f8, 0).unwrap();
    assert_eq!(p, data);
    assert_eq!(next, 4);

    let f16 = write_16bit(&data).unwrap();
    assert_eq!(f16, vec![0u8, 3u8, 5u8, 6u8, 7u8]);
    let (p, next) = read_16bit(&f16, 0).unwrap();
    assert_eq!(p, data);
    assert_eq!(next, 5);

    let f32f = write_32bit(&data).unwrap();
    assert_eq!(f32f, vec![0u8, 0u8, 0u8, 3u8, 5u8, 6u8, 7u8]);
    let (p, next) = read_32bit(&f32f, 0).unwrap();
    assert_eq!(p, data);
    assert_eq!(next, 7);

    let big = vec![0u8; 300];
    assert!(matches!(
        write_8bit(&big),
        Err(CommsError::FrameTooBig { len: 300, max: 255 })
    ));
}

#[test]
fn encrypted_wire_frames_round_trip() {
    let key = EncryptKey::from_seed_bytes(b"wire", KeySize::Bit128);
    let packet = b"hello{node, domain}".to_vec();
    let framed = send_frame(&Some(key), &packet).unwrap();
    assert_ne!(framed, packet);
    let back = recv_frame(&Some(key), &framed).unwrap();
    assert_eq!(back, packet);
    // Without a key the frame is the plain payload behind its prefix.
    let plain = send_frame(&None, &packet).unwrap();
    let back = recv_frame(&None, &plain).unwrap();
    assert_eq!(back, packet);
}

#[test]
fn upgrade_only_handshakes_raw_to_web_socket() {
    assert_eq!(
        upgrade_action(StreamProtocol::Tcp, StreamProtocol::WebSocket),
        UpgradeAction::WebSocketHandshake
    );
    assert_eq!(
        upgrade_action(StreamProtocol::Tcp, StreamProtocol::Tcp),
        UpgradeAction::Keep
    );
    assert_eq!(
        upgrade_action(StreamProtocol::WebSocket, StreamProtocol::WebSocket),
        UpgradeAction::Keep
    );
}

#[test]
fn reconnect_backoff_doubles_and_caps() {
    assert_eq!(next_backoff(100), 200);
    assert_eq!(next_backoff(5_000), 10_000);
    assert_eq!(next_backoff(9_000), 10_000);
    assert_eq!(
        connect_retry(IoKind::ConnectionRefused, true, 100),
        RetryDecision::Abort
    );
    assert_eq!(
        connect_retry(IoKind::ConnectionRefused, false, 100),
        RetryDecision::Retry { backoff_ms: 200 }
    );
    assert_eq!(
        connect_retry(IoKind::ConnectionReset, true, 8_000),
        RetryDecision::Retry { backoff_ms: 10_000 }
    );
    assert_eq!(
        connect_retry(IoKind::Other, false, 100),
        RetryDecision::Surface
    );
    assert!(is_disconnect_kind(IoKind::BrokenPipe));
    assert!(is_disconnect_kind(IoKind::UnexpectedEof));
    assert!(!is_disconnect_kind(IoKind::Other));
}

#[test]
fn session_source_precedence() {
    assert_eq!(
        session_source(true, true, false, false),
        SessionSource::ConflictingInputs
    );
    assert_eq!(
        session_source(false, true, true, false),
        SessionSource::FromTokenFile
    );
    assert_eq!(
        session_source(true, false, true, false),
        SessionSource::FromTokenText
    );
    assert_eq!(
        session_source(false, false, true, true),
        SessionSource::FromLogin { sudo: true }
    );
    assert_eq!(session_source(false, false, false, false), SessionSource::Fresh);
}
