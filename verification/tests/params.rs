//! Transport parameters and the settings they come from.

use std::time::Duration;

use bytes::{BufMut, Bytes, BytesMut};
use web_transport::qmux::proto::params::{APPLICATION_PROTOCOLS_ID, MAX_DATAGRAM_FRAME_SIZE};
use web_transport::qmux::proto::{DEFAULT_MAX_RECORD_SIZE, TransportParams, VarInt, varint_size};
use web_transport::qmux::protocol::validate_protocol;
use web_transport::qmux::{Config, Error, Protocol, Version};

fn protocols_id() -> VarInt {
    VarInt::try_from(APPLICATION_PROTOCOLS_ID).unwrap()
}

#[test]
fn protocols_round_trip() {
    let params = TransportParams {
        initial_max_data: 1024,
        protocols: vec!["moq-lite-04".to_string(), "moq-lite-03".to_string()],
        ..TransportParams::default()
    };
    let decoded = TransportParams::decode(params.encode().unwrap()).unwrap();
    assert_eq!(decoded.protocols, params.protocols);
    assert_eq!(decoded.initial_max_data, 1024);
}

#[test]
fn protocols_omitted_when_empty() {
    // A peer that never negotiates puts no application_protocols on the wire.
    let bytes = TransportParams::default().encode().unwrap();
    assert!(!bytes
        .windows(8)
        .any(|w| w == APPLICATION_PROTOCOLS_ID.to_be_bytes()));
    assert!(TransportParams::decode(bytes).unwrap().protocols.is_empty());
}

#[test]
fn duplicate_protocols_param_rejected() {
    let one = TransportParams {
        protocols: vec!["a".to_string()],
        ..TransportParams::default()
    }
    .encode()
    .unwrap();
    let mut doubled = BytesMut::from(&one[..]);
    doubled.extend_from_slice(&one);
    assert!(matches!(
        TransportParams::decode(doubled.freeze()),
        Err(Error::DuplicateParam(APPLICATION_PROTOCOLS_ID))
    ));
}

#[test]
fn invalid_utf8_protocol_rejected() {
    // id=APPLICATION_PROTOCOLS_ID, len=2, value=[len=1, 0xff]
    let mut buf = BytesMut::new();
    protocols_id().encode(&mut buf);
    VarInt::from_u32(2).encode(&mut buf);
    VarInt::from_u32(1).encode(&mut buf);
    buf.put_u8(0xff);
    assert!(matches!(
        TransportParams::decode(buf.freeze()),
        Err(Error::InvalidProtocol(_))
    ));
}

#[test]
fn empty_protocols_param_rejected() {
    // id=APPLICATION_PROTOCOLS_ID, len=0, which the encoder never produces.
    let mut buf = BytesMut::new();
    protocols_id().encode(&mut buf);
    VarInt::from_u32(0).encode(&mut buf);
    assert!(matches!(
        TransportParams::decode(buf.freeze()),
        Err(Error::InvalidProtocol(_))
    ));
}

#[test]
fn every_parameter_round_trips() {
    let params = TransportParams {
        max_idle_timeout: 30_000,
        initial_max_data: 1 << 20,
        initial_max_stream_data_bidi_local: 70_000,
        initial_max_stream_data_bidi_remote: 80_000,
        initial_max_stream_data_uni: 90_000,
        initial_max_streams_bidi: 100,
        initial_max_streams_uni: 101,
        max_datagram_frame_size: 65_535,
        max_record_size: 20_000,
        protocols: vec!["a".to_string(), "é".to_string()],
    };
    let decoded = TransportParams::decode(params.encode().unwrap()).unwrap();
    assert_eq!(decoded.max_idle_timeout, 30_000);
    assert_eq!(decoded.initial_max_data, 1 << 20);
    assert_eq!(decoded.initial_max_stream_data_bidi_local, 70_000);
    assert_eq!(decoded.initial_max_stream_data_bidi_remote, 80_000);
    assert_eq!(decoded.initial_max_stream_data_uni, 90_000);
    assert_eq!(decoded.initial_max_streams_bidi, 100);
    assert_eq!(decoded.initial_max_streams_uni, 101);
    assert_eq!(decoded.max_datagram_frame_size, 65_535);
    assert_eq!(decoded.max_record_size, 20_000);
    assert_eq!(decoded.protocols, params.protocols);
}

#[test]
fn unknown_parameters_are_skipped() {
    let mut buf = BytesMut::new();
    VarInt::from_u32(0x3f).encode(&mut buf);
    VarInt::from_u32(3).encode(&mut buf);
    buf.put_slice(b"abc");
    VarInt::from_u32(0x04).encode(&mut buf);
    VarInt::from_u32(1).encode(&mut buf);
    buf.put_u8(7);
    let decoded = TransportParams::decode(buf.freeze()).unwrap();
    assert_eq!(decoded.initial_max_data, 7);
    assert_eq!(decoded.max_record_size, DEFAULT_MAX_RECORD_SIZE);
}

#[test]
fn truncated_parameters_are_short() {
    assert!(matches!(
        TransportParams::decode(Bytes::from_static(&[0x04])),
        Err(Error::Short)
    ));
    assert!(matches!(
        TransportParams::decode(Bytes::from_static(&[0x04, 0x02, 0x01])),
        Err(Error::Short)
    ));
}

#[test]
fn a_parameter_out_of_range_does_not_encode() {
    let params = TransportParams {
        initial_max_data: 1 << 62,
        ..TransportParams::default()
    };
    assert!(matches!(params.encode(), Err(Error::FlowControlError)));
}

#[test]
fn varint_sizes() {
    assert_eq!(varint_size(0), 1);
    assert_eq!(varint_size(63), 1);
    assert_eq!(varint_size(64), 2);
    assert_eq!(varint_size(16_383), 2);
    assert_eq!(varint_size(16_384), 4);
    assert_eq!(varint_size((1 << 30) - 1), 4);
    assert_eq!(varint_size(1 << 30), 8);
}

#[test]
fn varint_round_trip_at_each_size() {
    for value in [0, 63, 64, 16_383, 16_384, (1 << 30) - 1, 1 << 30, (1 << 62) - 1] {
        let v = VarInt::from_u64(value).unwrap();
        let mut buf = BytesMut::new();
        v.encode(&mut buf);
        assert_eq!(buf.len(), varint_size(value));
        let mut bytes = buf.freeze();
        assert_eq!(VarInt::decode(&mut bytes).unwrap().into_inner(), value);
        assert!(bytes.is_empty());
    }
    assert!(VarInt::from_u64(1 << 62).is_err());
    assert!(VarInt::decode(&mut Bytes::from_static(&[0x40])).is_err());
}

#[test]
fn config_becomes_parameters() {
    let mut config = Config::new(Version::QMux01);
    config.protocol = Protocol::Negotiate(vec!["chat".to_string()]);
    config.max_idle_timeout = 1234;
    let params = config.to_transport_params();
    assert_eq!(params.max_idle_timeout, 1234);
    assert_eq!(params.initial_max_data, config.max_data);
    assert_eq!(params.initial_max_streams_uni, config.max_streams_uni);
    assert_eq!(params.max_datagram_frame_size, 65_535);
    assert_eq!(params.protocols, vec!["chat".to_string()]);
    assert_eq!(MAX_DATAGRAM_FRAME_SIZE, 0x20);
    assert_eq!(config.handshake_timeout, Duration::from_secs(10));
}

#[test]
fn a_negotiated_config_advertises_no_protocols() {
    let config = Config::negotiated(Version::QMux00, Some("chat".to_string()));
    assert!(matches!(&config.protocol, Protocol::Negotiated(name) if name == "chat"));
    assert!(config.to_transport_params().protocols.is_empty());
}

#[test]
fn protocol_names_are_tokens() {
    assert!(validate_protocol("moq-lite-04").is_ok());
    assert!(validate_protocol("!#$%&'*+-.^_`|~").is_ok());
    assert!(matches!(validate_protocol(""), Err(Error::InvalidProtocol(_))));
    assert!(matches!(validate_protocol("bad name"), Err(Error::InvalidProtocol(p)) if p == "bad name"));
    assert!(matches!(validate_protocol("a,b"), Err(Error::InvalidProtocol(_))));
    assert!(matches!(validate_protocol("naïve"), Err(Error::InvalidProtocol(_))));
}

#[test]
fn an_invalid_name_is_shown_as_bytes() {
    let mut buf = BytesMut::new();
    protocols_id().encode(&mut buf);
    VarInt::from_u32(3).encode(&mut buf);
    VarInt::from_u32(2).encode(&mut buf);
    buf.put_slice(&[b'a', 0xff]);
    match TransportParams::decode(buf.freeze()) {
        Err(Error::InvalidProtocol(name)) => assert_eq!(name, "b\"a\\xff\""),
        other => panic!("{other:?}"),
    }
}

#[test]
fn an_unknown_parameter_in_the_middle_changes_nothing() {
    let mut params = TransportParams::default();
    params.initial_max_data = 7;
    params.initial_max_streams_uni = 3;
    let plain = params.encode().unwrap();
    let expected = TransportParams::decode(plain.clone()).unwrap();
    // `initial_max_data` comes first: an identifier, a length and one byte.
    assert_eq!(&plain[..3], [0x04, 0x01, 0x07]);
    let mut buf = BytesMut::new();
    buf.put_slice(&plain[..3]);
    VarInt::from_u32(0x3f).encode(&mut buf);
    VarInt::from_u32(2).encode(&mut buf);
    buf.put_slice(b"zz");
    buf.put_slice(&plain[3..]);
    let decoded = TransportParams::decode(buf.freeze()).unwrap();
    assert_eq!(decoded.initial_max_data, 7);
    assert_eq!(decoded.initial_max_streams_uni, 3);
    assert_eq!(format!("{decoded:?}"), format!("{expected:?}"));
}

#[test]
fn an_unknown_parameter_in_a_longer_form_is_skipped() {
    // The identifier 0x3f in two bytes and the length 2 in four.
    let bytes = [
        0x04, 0x01, 0x07, 0x40, 0x3f, 0x80, 0x00, 0x00, 0x02, b'z', b'z', 0x09, 0x01, 0x03,
    ];
    let decoded = TransportParams::decode(Bytes::copy_from_slice(&bytes)).unwrap();
    assert_eq!(decoded.initial_max_data, 7);
    assert_eq!(decoded.initial_max_streams_uni, 3);
}
