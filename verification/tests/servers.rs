use hyper::header::{HeaderName, HeaderValue};
use hyper::HeaderMap;
use realtime_web_comparison::coordinates::{coordinate_messages, point_message};
use realtime_web_comparison::echo::{echo_step, EchoAction, EchoEvent, MessageKind};
use realtime_web_comparison::http::{
    connection_header_contains_upgrade, handle_http, http_redirect, is_plain_http,
    is_websocket_upgrade, redirect_head, reply_to_upgrade, HttpReply,
};
use realtime_web_comparison::net::{Ipv4Addr, SocketAddrV4, SocketError};
use realtime_web_comparison::peer::{
    answer_message as peer_answer_message, browser_label, peer_step, ping_payload, read_message,
    PeerAction, PeerEvent, ICE_SERVER_URL,
};
use realtime_web_comparison::platform::Platform;
use realtime_web_comparison::signaling::{
    answer_message, first_offer, signaling_step, Phase, SignalingAction, SignalingError,
    SignalingEvent, WsEvent, WsInbound,
};

fn headers(fields: &[(&'static str, &[u8])]) -> HeaderMap {
    let mut map = HeaderMap::new();
    for (name, value) in fields {
        map.append(
            HeaderName::from_bytes(name.as_bytes()).unwrap(),
            HeaderValue::from_bytes(value).unwrap(),
        );
    }
    map
}

fn upgrade_headers() -> HeaderMap {
    headers(&[
        ("Connection", b"keep-alive, Upgrade"),
        ("Upgrade", b"WebSocket"),
        ("Sec-WebSocket-Key", b"dGhlIHNhbXBsZSBub25jZQ=="),
    ])
}

fn field<'a>(reply: &'a HttpReply, name: &str) -> Option<&'a str> {
    reply.headers.iter().find(|(n, _)| n == name).map(|(_, v)| v.as_str())
}

fn candidate() -> WsInbound {
    WsInbound::Candidate { candidate: "c".to_string(), sdp_mid: None, sdp_m_line_index: Some(0) }
}

#[test]
fn there_are_2500_coordinates() {
    let messages = coordinate_messages();
    assert_eq!(messages.len(), 2500);
    assert_eq!(messages[0], "10,10");
    assert_eq!(messages[1], "20,10");
    assert_eq!(messages[49], "500,10");
    assert_eq!(messages[50], "10,20");
    assert_eq!(messages[2499], "500,500");
}

#[test]
fn every_point_is_streamed_once() {
    let messages = coordinate_messages();
    let mut sorted = messages.clone();
    sorted.sort();
    sorted.dedup();
    assert_eq!(sorted.len(), messages.len());
    for y in (10..=500).step_by(10) {
        for x in (10..=500).step_by(10) {
            let place = 5 * (y - 10) + (x - 10) / 10;
            assert_eq!(messages[place], format!("{x},{y}"));
        }
    }
}

#[test]
fn a_point_as_text() {
    assert_eq!(point_message(120, 30), "120,30");
    assert_eq!(point_message(0, u64::MAX), "0,18446744073709551615");
}

#[test]
fn a_websocket_request_is_switched() {
    let reply = handle_http("GET", &upgrade_headers());
    assert_eq!(reply.status, 101);
    assert_eq!(field(&reply, "connection"), Some("Upgrade"));
    assert_eq!(field(&reply, "upgrade"), Some("websocket"));
    assert_eq!(field(&reply, "sec-websocket-accept"), Some("s3pPLMBiTxaQ9kYGzzhZRbK+xOo="));
    assert_eq!(reply.headers.len(), 3);
    assert_eq!(reply.body, "");
}

#[test]
fn other_requests_are_told_what_the_server_is_for() {
    let mut without_key = upgrade_headers();
    without_key.remove("sec-websocket-key");
    let cases = [("POST", upgrade_headers()), ("get", upgrade_headers()), ("GET", HeaderMap::new()), ("GET", without_key)];
    for (method, map) in cases {
        let reply = handle_http(method, &map);
        assert_eq!(reply.status, 200);
        assert_eq!(field(&reply, "Content-Type"), Some("text/plain; charset=utf-8"));
        assert_eq!(field(&reply, "Connection"), Some("close"));
        assert_eq!(reply.headers.len(), 2);
        assert_eq!(
            reply.body,
            "WebRTC Signaling Server - Use WebSocket connection for signaling"
        );
    }
}

#[test]
fn replies_to_an_upgrade() {
    let switched = reply_to_upgrade(Some("value".to_string()));
    assert_eq!(switched.status, 101);
    assert_eq!(field(&switched, "sec-websocket-accept"), Some("value"));
    let refused = reply_to_upgrade(None);
    assert_eq!(refused.status, 400);
    assert_eq!(refused.body, "Missing Sec-WebSocket-Key header");
    assert!(refused.headers.is_empty());
}

#[test]
fn the_connection_field_is_a_list() {
    let cases: [(&[u8], bool); 8] = [
        (b"Upgrade", true),
        (b"keep-alive, \t UPGRADE ", true),
        (b"upgrade,close", true),
        (b"", false),
        (b"keep-alive", false),
        (b"up grade", false),
        (b"upgrades", false),
        (b"upgrade, caf\xe9", false),
    ];
    for (value, expected) in cases {
        let map = headers(&[("connection", value)]);
        assert_eq!(connection_header_contains_upgrade(&map), expected, "{value:?}");
    }
    assert!(!connection_header_contains_upgrade(&HeaderMap::new()));
    let twice = headers(&[("connection", b"keep-alive"), ("connection", b"upgrade")]);
    assert!(!connection_header_contains_upgrade(&twice));
}

#[test]
fn each_part_of_an_upgrade_is_needed() {
    assert!(is_websocket_upgrade("GET", &upgrade_headers()));
    for name in ["connection", "upgrade", "sec-websocket-key"] {
        let mut map = upgrade_headers();
        map.remove(name);
        assert!(!is_websocket_upgrade("GET", &map), "{name}");
    }
    let mut other = upgrade_headers();
    other.insert("upgrade", HeaderValue::from_static("h2c"));
    assert!(!is_websocket_upgrade("GET", &other));
    assert!(!is_websocket_upgrade("HEAD", &upgrade_headers()));
}

#[test]
fn plain_http_starts_with_a_letter() {
    assert!(is_plain_http(Some(b'G')));
    assert!(is_plain_http(Some(b'p')));
    assert!(!is_plain_http(Some(0x16)));
    assert!(!is_plain_http(Some(b'[')));
    assert!(!is_plain_http(None));
    for b in 0..=255u8 {
        assert_eq!(is_plain_http(Some(b)), b.is_ascii_alphabetic());
    }
}

#[test]
fn plain_http_is_redirected() {
    assert_eq!(
        http_redirect(),
        "HTTP/1.1 302 Found\r\n\
         Location: https://localhost:8002/\r\n\
         Content-Type: text/plain; charset=utf-8\r\n\
         Content-Length: 22\r\n\
         Connection: close\r\n\
         \r\n\
         Redirecting to HTTPS\r\n"
    );
    assert!(redirect_head("h", 1, "caf\u{e9}").contains("Content-Length: 5\r\n"));
}

#[test]
fn the_echo_server_sends_data_back() {
    assert_eq!(echo_step(EchoEvent::Received(MessageKind::Text)), EchoAction::SendBack);
    assert_eq!(echo_step(EchoEvent::Received(MessageKind::Binary)), EchoAction::SendBack);
    for kind in [MessageKind::Ping, MessageKind::Pong, MessageKind::Close, MessageKind::Frame] {
        assert_eq!(echo_step(EchoEvent::Received(kind)), EchoAction::Read);
    }
    assert_eq!(echo_step(EchoEvent::Sent), EchoAction::Read);
    assert_eq!(echo_step(EchoEvent::ReadFailed), EchoAction::Stop);
    assert_eq!(echo_step(EchoEvent::SendFailed), EchoAction::Stop);
}

#[test]
fn a_peer_socket_waits_for_an_offer() {
    assert_eq!(peer_step(PeerEvent::Pinged), PeerAction::Receive);
    assert_eq!(peer_step(PeerEvent::PingFailed), PeerAction::Close);
    assert_eq!(peer_step(PeerEvent::Unreadable), PeerAction::Receive);
    assert_eq!(peer_step(PeerEvent::Offer), PeerAction::Negotiate);
    assert_eq!(peer_step(PeerEvent::Answered), PeerAction::SendAnswer);
    assert_eq!(peer_step(PeerEvent::AnswerSent), PeerAction::Close);
    assert_eq!(peer_step(PeerEvent::AnswerFailed), PeerAction::Close);
    assert_eq!(peer_step(PeerEvent::Disconnected), PeerAction::Close);
    assert_eq!(peer_step(PeerEvent::Ended), PeerAction::Close);
    assert_eq!(ping_payload(), vec![1, 2, 3]);
    assert_eq!(ICE_SERVER_URL, "stun:stun.l.google.com:19302");
    assert_eq!(browser_label(None), "Unknown browser");
    assert_eq!(browser_label(Some("Firefox".to_string())), "Firefox");
}

#[test]
fn the_first_frame_has_to_be_an_offer() {
    let offer = WsInbound::Offer { sdp: "v=0".to_string() };
    assert_eq!(first_offer(WsEvent::Data(Some(offer))), Ok("v=0".to_string()));
    assert_eq!(first_offer(WsEvent::Data(Some(candidate()))), Err(SignalingError::NotAnOffer));
    assert_eq!(
        first_offer(WsEvent::Data(Some(WsInbound::EndOfCandidates))),
        Err(SignalingError::NotAnOffer)
    );
    assert_eq!(first_offer(WsEvent::Data(None)), Err(SignalingError::Unreadable));
    assert_eq!(first_offer(WsEvent::Close), Err(SignalingError::UnexpectedFrame));
    assert_eq!(first_offer(WsEvent::Control), Err(SignalingError::UnexpectedFrame));
    assert_eq!(first_offer(WsEvent::Failed), Err(SignalingError::Receive));
    assert_eq!(first_offer(WsEvent::Ended), Err(SignalingError::ClientClosed));
}

#[test]
fn events_of_a_connection() {
    let local = SocketAddrV4 { ip: Ipv4Addr(127, 0, 0, 1), port: 9 };
    let source = SocketAddrV4 { ip: Ipv4Addr(10, 0, 0, 7), port: 7 };
    let step = |event| {
        let (phase, action) = signaling_step(Phase::Open, event, local, Platform::Windows);
        assert_eq!(phase == Phase::Closed, matches!(action, SignalingAction::Stop));
        action
    };
    assert!(matches!(
        step(SignalingEvent::Frame(WsEvent::Data(Some(candidate())))),
        SignalingAction::Forward(WsInbound::Candidate { .. })
    ));
    assert!(matches!(step(SignalingEvent::Frame(WsEvent::Data(None))), SignalingAction::Ignore));
    assert!(matches!(step(SignalingEvent::Frame(WsEvent::Control)), SignalingAction::Ignore));
    for end in [WsEvent::Close, WsEvent::Failed, WsEvent::Ended] {
        assert!(matches!(step(SignalingEvent::Frame(end)), SignalingAction::Stop));
    }
    match step(SignalingEvent::Datagram { data: vec![1, 2], source }) {
        SignalingAction::Deliver(datagram) => {
            assert_eq!(datagram.buf, vec![1, 2]);
            assert_eq!(datagram.src, source);
            assert_eq!(datagram.dst, local);
        }
        _ => panic!("not delivered"),
    }
    assert!(matches!(
        step(SignalingEvent::Datagram { data: vec![], source }),
        SignalingAction::Ignore
    ));
    let reset = SocketError { connection_reset: true, os_error: None };
    assert!(matches!(step(SignalingEvent::ReceiveFailed(reset)), SignalingAction::Ignore));
    assert!(matches!(
        signaling_step(Phase::Open, SignalingEvent::ReceiveFailed(reset), local, Platform::Other).1,
        SignalingAction::Report
    ));
    assert!(matches!(step(SignalingEvent::DeadlinePassed), SignalingAction::Tick));
}

#[test]
fn a_conversation_has_one_answer() {
    let local = SocketAddrV4 { ip: Ipv4Addr(127, 0, 0, 1), port: 9 };
    let offer = || {
        let message = WsInbound::Offer { sdp: "v=0".to_string() };
        SignalingEvent::Frame(WsEvent::Data(Some(message)))
    };
    let answer = || SignalingEvent::Answer(Some("v=0 a".to_string()));
    let events = [answer(), offer(), offer(), answer(), answer(), offer(), answer()];
    let mut phase = Phase::AwaitingOffer;
    let mut sent = Vec::new();
    let mut phases = Vec::new();
    for event in events {
        let (next, action) = signaling_step(phase, event, local, Platform::Other);
        if let SignalingAction::SendAnswer(text) = action {
            sent.push(text);
        }
        phase = next;
        phases.push(phase);
    }
    assert_eq!(sent, vec![answer_message("v=0 a")]);
    assert_eq!(
        phases,
        vec![
            Phase::AwaitingOffer,
            Phase::AwaitingAnswer,
            Phase::AwaitingAnswer,
            Phase::Open,
            Phase::Open,
            Phase::Open,
            Phase::Open,
        ]
    );
}

#[test]
fn conversations_that_end_early() {
    let local = SocketAddrV4 { ip: Ipv4Addr(127, 0, 0, 1), port: 9 };
    let (phase, action) = signaling_step(
        Phase::AwaitingOffer,
        SignalingEvent::Frame(WsEvent::Data(Some(candidate()))),
        local,
        Platform::Other,
    );
    assert_eq!(phase, Phase::Closed);
    assert!(matches!(action, SignalingAction::Fail(SignalingError::NotAnOffer)));
    let none = SignalingEvent::Answer(None);
    let (phase, action) = signaling_step(Phase::AwaitingAnswer, none, local, Platform::Other);
    assert_eq!(phase, Phase::Closed);
    assert!(matches!(action, SignalingAction::Fail(SignalingError::NoAnswer)));
    let tick = SignalingEvent::DeadlinePassed;
    let (phase, action) = signaling_step(Phase::Closed, tick, local, Platform::Other);
    assert_eq!(phase, Phase::Closed);
    assert!(matches!(action, SignalingAction::Ignore));
}

#[test]
fn the_offer_of_a_peer_is_read_and_answered() {
    let (event, offer) = read_message("{\"type\":\"offer\",\"sdp\":\"v=0\"}");
    assert_eq!(event, PeerEvent::Offer);
    let offer = offer.unwrap();
    assert_eq!(offer.sdp, "v=0");
    let text = peer_answer_message(&offer);
    let value: serde_json::Value = serde_json::from_str(&text).unwrap();
    assert_eq!(value["type"], "offer");
    assert_eq!(value["sdp"], "v=0");
    for text in ["", "v=0", "{}", "{\"type\":\"nothing\",\"sdp\":\"v=0\"}"] {
        let (event, offer) = read_message(text);
        assert_eq!(event, PeerEvent::Unreadable);
        assert!(offer.is_none());
    }
}

#[test]
fn the_answer_is_json() {
    let text = answer_message("v=0\r\n\"q\"");
    let value: serde_json::Value = serde_json::from_str(&text).unwrap();
    assert_eq!(value["type"], "answer");
    assert_eq!(value["sdp"], "v=0\r\n\"q\"");
    assert_eq!(value.as_object().unwrap().len(), 2);
}
