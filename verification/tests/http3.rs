//! Error codes and headers of sessions over HTTP/3, and the sessions over iroh
//! that use them.

use bytes::Bytes;
use web_transport::http3::accept::{decode_bi, decode_uni};
use web_transport::http3::header::UnknownSession;
use web_transport::http3::{
    BiStream, SessionAccept, SessionHeaders, UniStream, error_from_http3, error_to_http3,
};
use web_transport::iroh::Session;
use web_transport::iroh::session::{Handshake, SessionError, WriteOutcome, header_written};
use web_transport::noq::client::{
    Algorithm, ClientError, CongestionControl, Remote, request_remote, resolved,
};
use web_transport::noq::stream::{
    ReadError, WriteError, map_read_error, map_write_error, peer_code, read_closed, stream_code,
    write_closed,
};
use web_transport::qmux::proto::VarInt;
use web_transport::url::{Host, ParsedUrl};

#[test]
fn codes_round_trip() {
    assert_eq!(error_to_http3(0), 0x52e4a40fa8db);
    assert_eq!(error_to_http3(u32::MAX), 0x52e5ac983162);
    // "conn" in ASCII.
    assert_eq!(error_to_http3(0x636E6E6F), 0x52E50ACE926F);
    assert_eq!(error_to_http3(1668181615), 91143682298479);
    for code in [0, 1, 29, 30, 31, 59, 60, 500, 0x636E6E6F, u32::MAX] {
        assert_eq!(error_from_http3(error_to_http3(code)), Some(code));
        assert_ne!((error_to_http3(code) - 0x21) % 0x1f, 0);
    }
    assert_eq!(error_from_http3(0x52e4a40fa8da), None);
    assert_eq!(error_from_http3(0x52e5ac983163), None);
}

#[test]
fn datagrams_carry_their_session() {
    let headers = SessionHeaders::new(VarInt::from_u32(100));
    let sent = headers.send_datagram(Bytes::from_static(b"hello"));
    assert_eq!(&sent[..], b"\x40\x64hello");
    assert_eq!(headers.read_datagram(sent.clone()).unwrap(), &b"hello"[..]);
    let other = SessionHeaders::new(VarInt::from_u32(4));
    assert_eq!(other.read_datagram(sent), Err(UnknownSession));
    assert_eq!(other.read_datagram(Bytes::new()), Err(UnknownSession));
    assert_eq!(headers.max_datagram_size(1200), 1198);
    assert_eq!(headers.max_datagram_size(1), 0);
    assert_eq!(headers.close_code(0).into_inner(), 0x52e4a40fa8db);
}

#[test]
fn a_raw_session_carries_nothing() {
    let headers = SessionHeaders::raw();
    assert!(headers.session_id().is_none());
    assert!(headers.header_uni().is_empty() && headers.header_bi().is_empty());
    let data = Bytes::from_static(b"hello");
    assert_eq!(headers.send_datagram(data.clone()), data);
    assert_eq!(headers.read_datagram(data.clone()), Ok(data));
    assert_eq!(headers.max_datagram_size(1200), 1200);
    assert_eq!(headers.close_code(9).into_inner(), 9);
}

#[test]
fn stream_headers_are_read_back() {
    let id = VarInt::from_u32(4);
    let headers = SessionHeaders::new(id);
    assert_eq!(&headers.header_uni()[..], &[0x40, 0x54, 0x04]);
    assert_eq!(&headers.header_bi()[..], &[0x40, 0x41, 0x04]);
    let uni = headers.header_uni();
    assert_eq!(decode_uni(&uni, id), UniStream::Header { kind: 0x54, len: 3 });
    assert_eq!(decode_uni(&uni[..0], id), UniStream::Short { more: 1 });
    assert_eq!(decode_uni(&uni[..1], id), UniStream::Short { more: 1 });
    assert_eq!(decode_uni(&uni[..2], id), UniStream::Short { more: 1 });
    assert_eq!(decode_uni(&uni, VarInt::from_u32(8)), UniStream::Unknown);
    assert_eq!(decode_uni(&[0x03, 0xff], id), UniStream::Header { kind: 3, len: 1 });
    let bi = headers.header_bi();
    assert_eq!(decode_bi(&bi, id), BiStream::Header { len: 3 });
    assert_eq!(decode_bi(&bi, VarInt::from_u32(8)), BiStream::Unknown);
    assert_eq!(decode_bi(&[0x00], id), BiStream::Ignored);
    assert_eq!(decode_bi(&[0xc0], id), BiStream::Short { more: 7 });
}

#[test]
fn accepted_streams_are_told_apart() {
    let mut accept = SessionAccept::new();
    assert_eq!(accept.accept_uni(Ok((0x54, 'a'))), Some('a'));
    assert_eq!(accept.accept_uni(Ok((0x02, 'b'))), None);
    assert_eq!(accept.accept_uni(Ok((0x03, 'c'))), None);
    assert_eq!(accept.accept_uni(Ok((0x21, 'd'))), None);
    assert_eq!(accept.accept_uni(Err(UnknownSession)), None);
    assert_eq!(accept.qpack_encoder, Some('b'));
    assert_eq!(accept.qpack_decoder, Some('c'));
    assert_eq!(accept.accept_bi(Ok(Some((1, 'x')))), Some((1, 'x')));
    assert_eq!(accept.accept_bi::<u8>(Ok(None)), None);
    assert_eq!(accept.accept_bi::<u8>(Err(UnknownSession)), None);
}

#[test]
fn an_iroh_session_is_raw_or_layered() {
    let raw: Session<u8, u8> = Session::raw();
    assert_eq!(raw.request(), None);
    assert_eq!(raw.protocol(b"moq"), Some("moq"));
    assert_eq!(raw.protocol(&[0xff]), None);
    assert!(raw.open_uni().is_empty());
    assert_eq!(raw.close(7).into_inner(), 7);

    let handshake = Handshake {
        request: 1u8,
        response: 2u8,
        protocol: Some("chat".to_string()),
    };
    let session = Session::new_h3(VarInt::from_u32(4), handshake);
    assert_eq!(session.request(), Some(&1));
    assert_eq!(session.response(), Some(&2));
    assert_eq!(session.protocol(b"h3"), Some("chat"));
    assert_eq!(&session.open_bi()[..], &[0x40, 0x41, 0x04]);
    let sent = session.send_datagram(Bytes::from_static(b"x"));
    let read = session.read_datagram::<u8, u8>(Ok(sent));
    assert!(matches!(read, Ok(b) if &b[..] == b"x"));
    let other = session.read_datagram::<u8, u8>(Ok(Bytes::from_static(b"\x08x")));
    assert!(matches!(other, Err(SessionError::UnknownSession)));
    let lost = session.read_datagram::<u8, u8>(Err(3));
    assert!(matches!(lost, Err(SessionError::Connection(3))));
    assert_eq!(session.max_datagram_size(10), 9);
    assert_eq!(session.close(1).into_inner(), 0x52e4a40fa8dc);
    assert!(session.on_connect_closed(1, true).is_none());
    assert_eq!(session.on_connect_closed(1, false).unwrap().into_inner(), 0x52e4a40fa8dc);
}

#[test]
fn a_header_that_is_not_written_fails_the_stream() {
    assert!(header_written::<u8, u8>(WriteOutcome::Done).is_ok());
    let lost = header_written::<u8, u8>(WriteOutcome::ConnectionLost(1));
    assert!(matches!(lost, Err(SessionError::Connection(1))));
    let failed = header_written::<u8, u8>(WriteOutcome::Failed(2));
    assert!(matches!(failed, Err(SessionError::Write(2))));
}

#[test]
fn streams_report_why_the_session_ended() {
    let known = "closed by peer";
    let e = map_read_error(Some(&known), ReadError::SessionError("lost"));
    assert!(matches!(e, ReadError::SessionError("closed by peer")));
    let e = map_read_error(None, ReadError::SessionError("lost"));
    assert!(matches!(e, ReadError::SessionError("lost")));
    let e = map_read_error(Some(&known), ReadError::Reset(3));
    assert!(matches!(e, ReadError::Reset(3)));
    let e = map_write_error(Some(&known), WriteError::SessionError("lost"));
    assert!(matches!(e, WriteError::SessionError("closed by peer")));
    let e = map_write_error(Some(&known), WriteError::ClosedStream);
    assert!(matches!(e, WriteError::ClosedStream));
    assert_eq!(peer_code(Some(&known), Ok(Some(error_to_http3(5)))), Ok(Some(5)));
    assert_eq!(peer_code(Some(&known), Ok(Some(5))), Ok(None));
    assert_eq!(peer_code(Some(&known), Ok(None)), Ok(None));
    assert_eq!(peer_code(Some(&known), Err("lost")), Err("closed by peer"));
    assert_eq!(peer_code(None, Err("lost")), Err("lost"));
    assert_eq!(stream_code(5).into_inner(), error_to_http3(5));
    assert!(matches!(write_closed::<u8>(Ok(Some(4))), Err(WriteError::Stopped(4))));
    assert!(write_closed::<u8>(Ok(None)).is_ok());
    assert!(matches!(write_closed(Err(1u8)), Err(WriteError::SessionError(1))));
    assert!(read_closed::<u8>(Ok(Some(4))).is_ok());
    assert!(matches!(read_closed(Err(1u8)), Err(ReadError::SessionError(1))));
}

#[test]
fn urls_are_read() {
    let url = ParsedUrl::parse("HTTPS://Example.com:4443/a b").unwrap();
    assert_eq!(url.text, "https://example.com:4443/a%20b");
    assert!(matches!(&url.host, Some(Host::Domain(d)) if d == "example.com"));
    assert_eq!(url.host_text.as_deref(), Some("example.com"));
    assert_eq!(url.port_or_default(), 4443);
    let url = ParsedUrl::parse("https://127.0.0.1:443/").unwrap();
    assert!(matches!(&url.host, Some(Host::Ipv4 { octets: [127, 0, 0, 1], text }) if text == "127.0.0.1"));
    assert_eq!(url.port, None);
    assert_eq!(url.port_or_default(), 443);
    let url = ParsedUrl::parse("https://[::1]:99/").unwrap();
    assert!(matches!(&url.host, Some(Host::Ipv6 { octets, text }) if octets[15] == 1 && text == "::1"));
    assert_eq!(url.host_text.as_deref(), Some("[::1]"));
    assert!(ParsedUrl::parse("data:x").unwrap().host.is_none());
    assert_eq!(
        ParsedUrl::parse("no scheme").unwrap_err(),
        "relative URL without a base"
    );
}

#[test]
fn a_url_says_where_to_connect() {
    let remote = |text| request_remote(&ParsedUrl::parse(text).unwrap());
    assert!(matches!(
        remote("https://example.com/"),
        Ok(Remote::Lookup { domain, port: 443 }) if domain == "example.com"
    ));
    assert!(matches!(
        remote("https://127.0.0.1:99/"),
        Ok(Remote::Ipv4 { host, octets: [127, 0, 0, 1], port: 99 }) if host == "127.0.0.1"
    ));
    assert!(matches!(
        remote("https://[::1]/"),
        Ok(Remote::Ipv6 { host, port: 443, .. }) if host == "::1"
    ));
    assert!(matches!(remote("data:x"), Err(ClientError::InvalidDnsName(n)) if n.is_empty()));
    assert!(matches!(resolved("d".to_string(), Some(vec![1, 2])), Ok((d, 1)) if d == "d"));
    let empty: Option<Vec<u8>> = Some(vec![]);
    assert!(matches!(resolved("d".to_string(), empty), Err(ClientError::InvalidDnsName(d)) if d == "d"));
    let none: Option<Vec<u8>> = None;
    assert!(matches!(resolved("d".to_string(), none), Err(ClientError::InvalidDnsName(_))));
}

#[test]
fn congestion_control_has_an_algorithm() {
    assert_eq!(CongestionControl::Default.algorithm(), None);
    assert_eq!(CongestionControl::Throughput.algorithm(), Some(Algorithm::Cubic));
    assert_eq!(CongestionControl::LowLatency.algorithm(), Some(Algorithm::Bbr));
}
