//! Names on offer and names picked, over TLS and WebSocket.

use std::time::Duration;

use bytes::Bytes;
use web_transport::qmux::alpn::{alpns, build, build_entries, expand_versions, parse, select};
use web_transport::qmux::error::WebSocketFailure;
use web_transport::qmux::header::{header_text, list_elements};
use web_transport::qmux::tls;
use web_transport::qmux::ws::{
    self, KeepAlive, Upgraded, WsEvent, WsMessage, WsStep, recv_step,
};
use web_transport::qmux::{Error, Protocol, Version, uds};

fn entries(items: &[(&str, &[Version])]) -> Vec<(String, Vec<Version>)> {
    items.iter().map(|(a, v)| (a.to_string(), v.to_vec())).collect()
}

#[test]
fn bare_names_stand_for_versions() {
    for version in Version::all() {
        assert_eq!(parse(Some(version.alpn())), (version, None));
    }
    assert_eq!(Version::QMux01.alpn(), "qmux-01");
    assert_eq!(Version::QMux00.alpn(), "qmux-00");
    assert_eq!(Version::WebTransport.alpn(), "webtransport");
    assert_eq!(alpns().len(), 3);
    assert!(Version::QMux00.is_qmux() && !Version::WebTransport.is_qmux());
}

#[test]
fn prefixed_names_carry_a_protocol() {
    assert_eq!(
        parse(Some("qmux-01.moq-lite-04")),
        (Version::QMux01, Some("moq-lite-04".to_string()))
    );
    assert_eq!(
        parse(Some("qmux-00.moq-lite-04")),
        (Version::QMux00, Some("moq-lite-04".to_string()))
    );
    assert_eq!(
        parse(Some("webtransport.chat")),
        (Version::WebTransport, Some("chat".to_string()))
    );
    assert_eq!(parse(None), (Version::WebTransport, None));
    assert_eq!(parse(Some("h3")), (Version::WebTransport, None));
}

#[test]
fn one_version_is_built() {
    let names = build(Version::QMux01, &["a".to_string(), "b".to_string()]);
    assert_eq!(names, vec!["qmux-01", "qmux-01.a", "qmux-01.b"]);
}

#[test]
fn entries_are_offered_in_order() {
    let list = entries(&[("a", &[Version::QMux00]), ("b", &[])]);
    let strict = build_entries(&list, true);
    assert_eq!(strict[0], "qmux-00.a");
    assert_eq!(strict.len(), 1 + expand_versions(&[]).len());
    let open = build_entries(&list, false);
    assert_eq!(open.len(), strict.len() + 3);
    assert_eq!(&open[..strict.len()], &strict[..]);
    assert!(open.contains(&"webtransport".to_string()));
}

#[test]
fn the_server_picks_by_its_own_order() {
    let server = entries(&[("b", &[Version::QMux01]), ("a", &[Version::QMux01])]);
    let offered = build_entries(&entries(&[("a", &[]), ("b", &[])]), false);
    let picked = select(&offered, &server, false).unwrap();
    assert_eq!(picked.version, Version::QMux01);
    assert_eq!(picked.protocol.as_deref(), Some("b"));
    assert_eq!(picked.name, "qmux-01.b");
    assert_eq!(
        parse(Some(&picked.name)),
        (picked.version, picked.protocol)
    );
}

#[test]
fn without_overlap_only_bare_names_are_left() {
    let server = entries(&[("x", &[])]);
    let offered = build_entries(&entries(&[("a", &[])]), false);
    let picked = select(&offered, &server, false).unwrap();
    assert_eq!(picked.protocol, None);
    assert_eq!(picked.name, picked.version.alpn());
    assert!(select(&offered, &server, true).is_none());
    assert!(select(&vec!["h3".to_string()], &server, false).is_none());
}

#[test]
fn websocket_ends_agree() {
    let client = ws::Client::new()
        .with_protocol("moq-lite-04", &[Version::QMux01])
        .with_protocols(&[("moq-lite-03", &[])]);
    let offer = client.offer().unwrap();
    let server = ws::Server::new().with_protocol("moq-lite-04", &[]).require_protocol();
    assert!(server.validate().is_ok());
    let picked = server.accept(&[offer.into_bytes()]).unwrap();
    assert_eq!(picked.name, "qmux-01.moq-lite-04");
    let config = client.session_config(Some(&picked.name)).unwrap();
    assert_eq!(config.version, Version::QMux01);
    assert!(matches!(&config.protocol, Protocol::Negotiated(p) if p == "moq-lite-04"));
    let config = ws::Server::session_config(picked);
    assert!(matches!(&config.protocol, Protocol::Negotiated(p) if p == "moq-lite-04"));
}

#[test]
fn websocket_names_are_checked() {
    let client = ws::Client::new().with_protocol("bad name", &[]);
    assert!(matches!(client.offer(), Err(Error::InvalidProtocol(p)) if p == "bad name"));
    let server = ws::Server::new().with_protocol("bad name", &[]);
    assert!(matches!(server.validate(), Err(Error::InvalidProtocol(_))));
    let strict = ws::Client::new().with_protocol("a", &[]).require_protocol();
    assert!(matches!(strict.session_config(None), Err(Error::InvalidProtocol(p)) if p == "<none>"));
    assert!(matches!(
        strict.session_config(Some("qmux-01")),
        Err(Error::InvalidProtocol(p)) if p == "qmux-01"
    ));
}

#[test]
fn header_lists_are_split() {
    let fields = vec![b"a, b ,,\tc".to_vec(), vec![0xff], b"d".to_vec()];
    assert_eq!(list_elements(&fields), vec!["a", "b", "c", "d"]);
    assert_eq!(header_text(b"ok\t"), Some("ok\t"));
    assert_eq!(header_text(b"\n"), None);
    assert_eq!(header_text(&[0x80]), None);
}

#[test]
fn tls_offers_bytes() {
    let client = tls::Client::new(7u8).with_protocol("a", &[Version::QMux01]).require_protocol();
    assert_eq!(client.alpn_protocols(), vec![b"qmux-01.a".to_vec()]);
    assert_eq!(*client.config(), 7);
    let config = client.session_config(Some(b"qmux-01.a")).unwrap();
    assert!(matches!(&config.protocol, Protocol::Negotiated(p) if p == "a"));
    assert!(client.session_config(Some(&[0xff])).is_err());
    let config = tls::Server::<u8>::session_config(Some(b"qmux-00"));
    assert_eq!(config.version, Version::QMux00);
}

#[test]
fn server_names_are_checked() {
    assert!(tls::check_server_name("example.com").is_ok());
    assert!(tls::check_server_name("127.0.0.1").is_ok());
    assert!(matches!(
        tls::check_server_name("not a name"),
        Err(Error::InvalidServerName)
    ));
}

#[test]
fn keep_alive_has_a_floor() {
    let default = KeepAlive::default();
    assert_eq!(default.interval, Duration::from_secs(5));
    assert_eq!(default.timeout, Duration::from_secs(30));
    let zero = KeepAlive::new(Duration::ZERO, Duration::ZERO).effective();
    assert_eq!(zero.interval, Duration::from_millis(1));
    assert_eq!(zero.timeout, Duration::from_millis(1));
    let short = KeepAlive::new(Duration::from_secs(9), Duration::from_secs(3)).effective();
    assert_eq!(short.timeout, Duration::from_secs(9));
}

#[test]
fn messages_decide_what_is_delivered() {
    let binary = WsEvent::Message(Some(Ok(WsMessage::Binary(Bytes::from_static(b"x")))));
    assert!(matches!(recv_step(binary), (WsStep::Deliver(b), true) if &b[..] == b"x"));
    let text = WsEvent::Message(Some(Ok(WsMessage::Text)));
    assert!(matches!(recv_step(text), (WsStep::Continue, true)));
    assert!(matches!(recv_step(WsEvent::Tick), (WsStep::SendPing, false)));
    let timeout = recv_step(WsEvent::Timeout);
    assert!(matches!(timeout, (WsStep::Fail(Error::Closed), false)));
    let close = recv_step(WsEvent::Message(Some(Ok(WsMessage::Close))));
    assert!(matches!(close, (WsStep::Fail(Error::Closed), true)));
    let end = recv_step(WsEvent::Message(None));
    assert!(matches!(end, (WsStep::Fail(Error::Closed), false)));
    let failed = recv_step(WsEvent::Message(Some(Err(WebSocketFailure::Http { status: 401 }))));
    assert!(matches!(failed, (WsStep::Fail(Error::Http(401)), false)));
}

#[test]
fn an_upgraded_socket_recovers_its_protocol() {
    let (socket, config, keep_alive) = Upgraded::new(3u8)
        .with_alpn("qmux-01.chat")
        .with_keep_alive(KeepAlive::default())
        .into_parts();
    assert_eq!(socket, 3);
    assert_eq!(config.version, Version::QMux01);
    assert!(matches!(&config.protocol, Protocol::Negotiated(p) if p == "chat"));
    assert!(keep_alive.is_some());
    let (_, config, _) = Upgraded::new(3u8).into_parts();
    assert_eq!(config.version, Version::WebTransport);
}

#[test]
fn unix_sockets_have_a_path() {
    let config = uds::Config::new(Version::QMux01)
        .path("/chat".to_string())
        .handshake_timeout(Duration::from_secs(3))
        .build();
    assert_eq!(config.path.as_deref(), Some("/chat"));
    assert_eq!(config.handshake_timeout, Duration::from_secs(3));
}
