//! Frames and records out of a byte stream that arrives in pieces.

use bytes::Bytes;
use web_transport::qmux::proto::{ConnectionClose, Frame, Ping, Stream, VarInt};
use web_transport::qmux::transport::{
    Delimited, StreamReader, recv_qmux00_frame, recv_record, record_header,
};
use web_transport::qmux::{Error, StreamId, Version};

#[test]
fn recv_is_cancel_safe_across_partial_writes() {
    let mut transport = StreamReader::new(Version::QMux00, 16 * 1024);

    // STREAM frame, type 0x0a (len bit set), id=4, length=5, payload="hello".
    let mut frame = Vec::new();
    frame.push(0x0a);
    frame.push(0x04);
    frame.push(0x05);
    frame.extend_from_slice(b"hello");

    for chunk in frame.chunks(1).take(frame.len() - 1) {
        transport.feed(chunk);
        assert!(transport.recv().is_none(), "recv completed with a partial frame");
    }

    transport.feed(&frame[frame.len() - 1..]);
    let got = transport.recv().unwrap().expect("frame should decode");
    assert_eq!(&got[..], frame.as_slice());
}

#[test]
fn recv_qmux01_record_is_cancel_safe() {
    let mut transport = StreamReader::new(Version::QMux01, 16 * 1024);

    // 1-byte varint length (0x08) followed by 8 bytes of payload.
    let mut record = vec![0x08];
    record.extend_from_slice(b"abcdefgh");

    for chunk in record.chunks(1).take(record.len() - 1) {
        transport.feed(chunk);
        assert!(transport.recv().is_none(), "recv completed with a partial record");
    }

    transport.feed(&record[record.len() - 1..]);
    let got = transport.recv().unwrap().expect("record should decode");
    assert_eq!(&got[..], b"abcdefgh");
}

#[test]
fn recv_returns_consecutive_frames_in_order() {
    let mut transport = StreamReader::new(Version::QMux00, 16 * 1024);

    // Two STREAM frames (type 0x0a) for stream ids 4 and 8.
    let frame_a: Vec<u8> = [0x0a, 0x04, 0x05].into_iter().chain(*b"hello").collect();
    let frame_b: Vec<u8> = [0x0a, 0x08, 0x05].into_iter().chain(*b"world").collect();
    let mut combined = frame_a.clone();
    combined.extend_from_slice(&frame_b);
    transport.feed(&combined);

    let got_a = transport.recv().unwrap().expect("first frame should decode");
    let got_b = transport.recv().unwrap().expect("second frame should decode");
    assert_eq!(&got_a[..], frame_a.as_slice());
    assert_eq!(&got_b[..], frame_b.as_slice());
    assert!(transport.recv().is_none());
}

#[test]
fn recv_propagates_parse_error_then_closes() {
    let mut transport = StreamReader::new(Version::QMux00, 16 * 1024);

    // Frame type 0x02 isn't a recognized QMux00 frame type.
    transport.feed(&[0x02]);
    let err = transport.recv().unwrap().expect_err("parse error expected");
    assert!(matches!(err, Error::InvalidFrameType(0x02)), "got {err:?}");

    let err = transport.recv().unwrap().expect_err("closed expected");
    assert!(matches!(err, Error::Closed), "got {err:?}");
}

#[test]
fn recv_record_exceeding_max_returns_frame_too_large() {
    let mut transport = StreamReader::new(Version::QMux01, 4);

    // 1-byte varint length = 5, which exceeds the configured max of 4.
    transport.feed(&[0x05]);
    let err = transport.recv().unwrap().expect_err("FrameTooLarge expected");
    assert!(matches!(err, Error::FrameTooLarge), "got {err:?}");
}

fn all_frames() -> Vec<Frame> {
    let id = StreamId(VarInt::from_u32(4));
    vec![
        Frame::Stream(Stream {
            id,
            data: Bytes::from_static(b"hello"),
            fin: true,
        }),
        Frame::MaxData(1024),
        Frame::MaxStreamData { id, max: 77 },
        Frame::MaxStreamsBidi(100),
        Frame::StreamDataBlocked { id, limit: 5 },
        Frame::ConnectionClose(ConnectionClose {
            code: VarInt::from_u32(42),
            reason: "bye".to_string(),
        }),
    ]
}

#[test]
fn pings_are_for_records() {
    let ping = Frame::Ping(Ping {
        sequence: 9,
        response: true,
    });
    assert!(matches!(
        ping.encode(Version::QMux00),
        Err(Error::InvalidFrameType(_))
    ));
    let bytes = ping.encode(Version::QMux01).unwrap();
    assert!(matches!(recv_qmux00_frame(&bytes), Delimited::Done { start: 0, end: 9 }));
}

#[test]
fn an_encoded_frame_is_delimited_exactly() {
    for frame in all_frames() {
        let bytes = frame.encode(Version::QMux00).unwrap();
        let mut wire = bytes.to_vec();
        wire.extend_from_slice(&[0x10, 0x00]);
        assert!(matches!(recv_qmux00_frame(&wire), Delimited::Done { end, .. } if end == bytes.len()));
        for cut in 0..bytes.len() {
            assert!(matches!(recv_qmux00_frame(&bytes[..cut]), Delimited::More));
        }
    }
}

#[test]
fn records_carry_their_size() {
    for frame in all_frames() {
        let bytes = frame.encode(Version::QMux01).unwrap();
        let header = record_header(&bytes, Version::QMux01).unwrap();
        let mut wire = header.to_vec();
        wire.extend_from_slice(&bytes);
        match recv_record(&wire, 16_382) {
            Delimited::Done { start, end } => {
                assert_eq!(&wire[start..end], &bytes[..]);
                assert_eq!(end, wire.len());
            }
            other => panic!("{other:?}"),
        }
        assert!(record_header(&bytes, Version::QMux00).unwrap().is_empty());
    }
}

#[test]
fn a_record_may_be_as_large_as_the_limit() {
    let mut wire = vec![0x04];
    wire.extend_from_slice(b"four");
    assert!(matches!(
        recv_record(&wire, 4),
        Delimited::Done { start: 1, end: 5 }
    ));
    assert!(matches!(
        recv_record(&wire, 3),
        Delimited::Bad(Error::FrameTooLarge)
    ));
}

#[test]
fn an_oversized_frame_is_refused_by_its_header() {
    // STREAM with a length of 16385, one above the largest frame.
    let wire = [0x0a, 0x04, 0x80, 0x00, 0x40, 0x01];
    assert!(matches!(
        recv_qmux00_frame(&wire),
        Delimited::Bad(Error::FrameTooLarge)
    ));
}
