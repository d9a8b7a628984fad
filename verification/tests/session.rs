//! Sessions on both ends of a link that carries messages in memory.

use std::collections::{HashMap, VecDeque};

use bytes::{BufMut, Bytes, BytesMut};
use web_transport::qmux::negotiate::negotiate_protocol;
use web_transport::qmux::proto::{
    Datagram, Frame, Ping, ResetStream, StopSending, Stream, TransportParams, VarInt,
};
use web_transport::qmux::session::idle::IdleTimer;
use web_transport::qmux::session::outbound::{
    ACCEPT_BUFFER, DATAGRAM_RECV_BUFFER, InboundDatagrams, Next, Outbound, WriteTask, WriterState,
    accept_blocked, close, send_datagram, transmit, write_step,
};
use web_transport::qmux::session::recv::{ReadStep, RecvStream, read_reported};
use web_transport::qmux::session::recv_open::RecvOpen;
use web_transport::qmux::session::send::{Piece, SendStream, WriteStep};
use web_transport::qmux::session::start::{
    Handshake, build_stream_session, decode_message, finish_handshake,
};
use web_transport::qmux::session::state::{Event, SessionState, negotiated_idle_timeout_ms};
use web_transport::qmux::transport::{StreamReader, record_header};
use web_transport::qmux::{Config, Error, Protocol, StreamDir, StreamId, Version, tcp, uds};

/// A stream that is received, with what waits to be read.
struct Incoming {
    stream: RecvStream,
    waiting: VecDeque<Stream>,
}

/// How far a write got.
#[derive(Debug, PartialEq)]
enum Progress {
    Done,
    WaitCredit,
    WaitQueue,
}

/// One end of a link.
struct Peer {
    session: SessionState,
    out: Outbound,
    incoming: Vec<Incoming>,
    accepted: VecDeque<u64>,
    datagrams: Vec<Bytes>,
    pieces: HashMap<u64, Piece>,
}

impl Peer {
    fn new(is_server: bool, config: Config) -> Peer {
        let (session, first) = SessionState::new(is_server, config);
        let mut out = Outbound::new();
        if let Some(frame) = first {
            out.send_control(frame);
        }
        Peer {
            session,
            out,
            incoming: Vec::new(),
            accepted: VecDeque::new(),
            datagrams: Vec::new(),
            pieces: HashMap::new(),
        }
    }

    /// The next message for the other end.
    fn next_message(&mut self) -> Option<Bytes> {
        match self.out.next_outbound() {
            Next::Frame(frame) => Some(transmit(&mut self.session, &frame).unwrap()),
            Next::Empty | Next::Closed => None,
        }
    }

    /// Take a message of the other end.
    fn recv(&mut self, message: Bytes) -> Result<(), Error> {
        for frame in decode_message(message, self.session.version())? {
            match self.session.recv_frame(frame) {
                Ok(event) => self.on_event(event),
                Err(err) => {
                    self.session.teardown(err.clone());
                    return Err(err);
                }
            }
        }
        Ok(())
    }

    fn on_event(&mut self, event: Event) {
        match event {
            Event::Nothing | Event::Established | Event::Close => {}
            Event::Accept(first) => {
                self.accepted.push_back(first.id.0.into_inner());
                self.incoming.push(Incoming {
                    stream: RecvStream::new(first.id),
                    waiting: VecDeque::from([first]),
                });
            }
            Event::Deliver(stream) => self.find(stream.id.0.into_inner()).waiting.push_back(stream),
            Event::Reset(reset) => {
                let incoming = self.find(reset.id.0.into_inner());
                incoming.stream.recv_reset(reset.code);
            }
            Event::Stop(_) => {}
            Event::Respond(frame) => self.out.send_control(frame),
            Event::Datagram(data) => self.datagrams.push(data),
        }
    }

    fn find(&mut self, id: u64) -> &mut Incoming {
        self.incoming
            .iter_mut()
            .find(|i| i.stream.id().0.into_inner() == id)
            .unwrap()
    }

    /// Read all that has arrived on a stream; `true` at its end.
    fn read(&mut self, id: u64) -> Result<(Vec<u8>, bool), Error> {
        let index = self
            .incoming
            .iter()
            .position(|i| i.stream.id().0.into_inner() == id)
            .unwrap();
        let mut all = Vec::new();
        loop {
            let incoming = &mut self.incoming[index];
            match incoming.stream.read_chunk(&mut self.session, 1 << 20)? {
                ReadStep::Data(data, stream, conn) => {
                    all.extend_from_slice(&data);
                    for update in [stream, conn].into_iter().flatten() {
                        self.out.send_control(update);
                    }
                }
                ReadStep::End => return Ok((all, true)),
                ReadStep::Wait => match incoming.waiting.pop_front() {
                    Some(next) => incoming.stream.on_data(next),
                    None => return Ok((all, false)),
                },
            }
        }
    }

    fn open_uni(&mut self) -> SendStream {
        SendStream::new(self.session.open_uni().unwrap().unwrap())
    }

    /// Queue as much as can be queued. A piece that finds no room waits here.
    fn write(&mut self, stream: &mut SendStream, buf: &mut Bytes) -> Result<Progress, Error> {
        let id = stream.id().0.into_inner();
        loop {
            let step = match self.pieces.remove(&id) {
                Some(piece) => {
                    stream.write_piece(&mut self.session, &mut self.out.streams, piece)?
                }
                None => stream.write_buf(&mut self.session, &mut self.out.streams, buf)?,
            };
            match step {
                WriteStep::Sent(_) => {}
                WriteStep::Done => return Ok(Progress::Done),
                WriteStep::WaitCredit => return Ok(Progress::WaitCredit),
                WriteStep::WaitQueue(piece) => {
                    self.pieces.insert(id, piece);
                    return Ok(Progress::WaitQueue);
                }
            }
        }
    }
}

fn link(config: Config) -> (Peer, Peer) {
    let mut client = Peer::new(false, config.clone());
    let mut server = Peer::new(true, config);
    exchange(&mut client, &mut server).unwrap();
    (client, server)
}

/// Carry messages both ways until nothing waits.
fn exchange(a: &mut Peer, b: &mut Peer) -> Result<(), Error> {
    loop {
        let mut idle = true;
        while let Some(message) = a.next_message() {
            b.recv(message)?;
            idle = false;
        }
        while let Some(message) = b.next_message() {
            a.recv(message)?;
            idle = false;
        }
        if idle {
            return Ok(());
        }
    }
}

fn v(items: &[&str]) -> Vec<String> {
    items.iter().map(|s| s.to_string()).collect()
}

#[test]
fn server_preference_wins() {
    let server = v(&["b", "a"]);
    let client = v(&["a", "b"]);
    // Server is the authority, so its order ("b" first) decides.
    assert_eq!(
        negotiate_protocol(true, &server, &client).as_deref(),
        Some("b")
    );
    // Same inputs from the client's vantage point must agree.
    assert_eq!(
        negotiate_protocol(false, &client, &server).as_deref(),
        Some("b")
    );
}

#[test]
fn no_overlap_is_none() {
    assert_eq!(negotiate_protocol(true, &v(&["a"]), &v(&["b"])), None);
    assert_eq!(negotiate_protocol(true, &v(&["a"]), &[]), None);
}

/// A STREAM frame on a server-initiated uni stream, as the client receives it.
fn uni_stream(index: u64, data: &'static [u8], fin: bool) -> Bytes {
    Frame::Stream(Stream {
        id: StreamId::new(index, StreamDir::Uni, true),
        data: Bytes::from_static(data),
        fin,
    })
    .encode(Version::QMux01)
    .unwrap()
}

/// A RESET_STREAM frame on a server-initiated uni stream.
fn uni_reset(index: u64) -> Bytes {
    Frame::ResetStream(ResetStream {
        id: StreamId::new(index, StreamDir::Uni, true),
        code: VarInt::from_u32(0),
        final_size: 0,
    })
    .encode(Version::QMux01)
    .unwrap()
}

#[test]
fn retired_recv_stream_is_not_resurrected() {
    let mut client = Peer::new(false, Config::new(Version::QMux01));

    // Open with data, FIN (retires the stream), then a late frame on the same id.
    client.recv(uni_stream(0, b"hello", false)).unwrap();
    client.recv(uni_stream(0, b"", true)).unwrap();
    client.recv(uni_stream(0, b"late", false)).unwrap();

    // The peer's stream is accepted exactly once.
    let id = client.accepted.pop_front().expect("accept_uni failed");
    assert_eq!(client.read(id).unwrap(), (b"hello".to_vec(), true));
    assert!(
        client.accepted.is_empty(),
        "a late frame on a retired stream resurrected a new accepted stream"
    );
}

#[test]
fn implicitly_opened_lower_stream_is_still_accepted() {
    let mut client = Peer::new(false, Config::new(Version::QMux01));

    // Retire stream 10 first, then deliver the first frame of stream 6.
    client.recv(uni_stream(10, b"", true)).unwrap();
    client.recv(uni_stream(6, b"hello", true)).unwrap();

    let first = client.accepted.pop_front().expect("accept_uni failed");
    assert_eq!(client.read(first).unwrap(), (b"".to_vec(), true));
    let second = client
        .accepted
        .pop_front()
        .expect("stream 6 was wrongly dropped as already-closed");
    assert_eq!(client.read(second).unwrap(), (b"hello".to_vec(), true));
}

#[test]
fn reset_as_first_frame_prevents_resurrection() {
    let mut client = Peer::new(false, Config::new(Version::QMux01));

    client.recv(uni_reset(5)).unwrap();
    client.recv(uni_stream(5, b"late", false)).unwrap();
    assert!(
        client.accepted.is_empty(),
        "a STREAM after a RESET-first stream resurrected a new accepted stream"
    );
}

/// A server whose peer has sent its transport parameters.
fn raw_peer(config: Config) -> Peer {
    let mut server = Peer::new(true, config);
    let params = Config::new(Version::QMux01).to_transport_params();
    let params = Frame::TransportParameters(params).encode(Version::QMux01).unwrap();
    server.recv(params).unwrap();
    assert!(server.session.is_established());
    server
}

#[test]
fn oversized_frame_closes_session() {
    let mut cfg = Config::new(Version::QMux01);
    cfg.max_datagram_frame_size = 100;
    let mut server = raw_peer(cfg);

    // Usable payload is 97 (100 - 1 type byte - 2 length-varint bytes); a
    // 98-byte payload tips the encoded frame to 101 > 100.
    let datagram = Frame::Datagram(Bytes::from(vec![0u8; 98]).into())
        .encode(Version::QMux01)
        .unwrap();
    assert!(server.recv(datagram).is_err());
    assert!(matches!(
        server.session.close_reason(),
        Some(Error::FrameTooLarge)
    ));
}

#[test]
fn unnegotiated_datagram_closes_session() {
    let mut cfg = Config::new(Version::QMux01);
    cfg.max_datagram_frame_size = 0;
    let mut server = raw_peer(cfg);

    let datagram = Frame::Datagram(Bytes::from_static(b"hi").into())
        .encode(Version::QMux01)
        .unwrap();
    assert!(server.recv(datagram).is_err());
    assert!(matches!(
        server.session.close_reason(),
        Some(Error::DatagramsUnsupported)
    ));
}

#[test]
fn frame_at_limit_delivered() {
    let mut cfg = Config::new(Version::QMux01);
    cfg.max_datagram_frame_size = 100;
    let mut server = raw_peer(cfg);

    // 97-byte payload: 1 + 2 + 97 == 100 == the limit.
    let payload = vec![7u8; 97];
    let datagram = Frame::Datagram(Bytes::from(payload.clone()).into())
        .encode(Version::QMux01)
        .unwrap();
    server.recv(datagram).unwrap();
    assert_eq!(server.datagrams[0].as_ref(), &payload[..]);
}

#[test]
fn no_length_datagram_uses_exact_frame_size() {
    let mut cfg = Config::new(Version::QMux01);
    cfg.max_datagram_frame_size = 100;
    let mut server = raw_peer(cfg);

    // A 99-byte 0x30 payload is a 1 + 99 = 100-byte frame, exactly the limit.
    let payload = vec![3u8; 99];
    let mut frame = BytesMut::new();
    frame.put_u8(0x30);
    frame.extend_from_slice(&payload);
    server.recv(frame.freeze()).unwrap();
    assert_eq!(server.datagrams[0].as_ref(), &payload[..]);
}

/// Both ends of a byte-stream session, with these protocols.
fn tcp_pair(server: Option<&[&str]>, client: Option<&[&str]>) -> (Peer, Peer) {
    let config = |names: Option<&[&str]>| {
        let config = tcp::Config::new(Version::QMux01);
        match names {
            Some(names) => config.protocols(v(names)).build(),
            None => config.build(),
        }
    };
    (Peer::new(true, config(server)), Peer::new(false, config(client)))
}

#[test]
fn negotiation_negotiates_shared_protocol() {
    // Server prefers moq-lite-03, but only moq-lite-04 is shared.
    let (mut server, mut client) = tcp_pair(
        Some(&["moq-lite-03", "moq-lite-04"]),
        Some(&["moq-lite-04", "moq-lite-05"]),
    );
    exchange(&mut client, &mut server).unwrap();
    assert_eq!(client.session.protocol(), Some("moq-lite-04"));
    assert_eq!(server.session.protocol(), Some("moq-lite-04"));

    let config = |names: &[&str]| uds::Config::new(Version::QMux01).protocols(v(names)).build();
    let mut server = Peer::new(true, config(&["moq-lite-04"]));
    let mut client = Peer::new(false, config(&["moq-lite-04", "moq-lite-03"]));
    exchange(&mut client, &mut server).unwrap();
    assert_eq!(client.session.protocol(), Some("moq-lite-04"));
    assert_eq!(server.session.protocol(), Some("moq-lite-04"));
}

#[test]
fn no_overlap_resolves_to_none() {
    let (mut server, mut client) = tcp_pair(Some(&["moq-lite-99"]), Some(&["moq-lite-04"]));
    exchange(&mut client, &mut server).unwrap();
    assert!(client.session.is_established() && server.session.is_established());
    assert_eq!(client.session.protocol(), None);
    assert_eq!(server.session.protocol(), None);
}

#[test]
fn both_without_protocols() {
    let (mut server, mut client) = tcp_pair(None, None);
    exchange(&mut client, &mut server).unwrap();
    assert_eq!(client.session.protocol(), None);
    assert_eq!(server.session.protocol(), None);
}

#[test]
fn unexpected_protocols_is_fatal() {
    let (mut server, mut client) = tcp_pair(None, Some(&["moq-lite-04"]));
    assert!(exchange(&mut client, &mut server).is_err());
    let err = server.session.close_reason().unwrap();
    assert!(matches!(err, Error::UnexpectedProtocols), "got {err:?}");
}

#[test]
fn rejects_invalid_protocol_name() {
    let config = tcp::Config::new(Version::QMux01)
        .protocols(v(&["bad name"]))
        .build();
    match build_stream_session(config, false) {
        Err(Error::InvalidProtocol(_)) => {}
        Err(other) => panic!("wrong error: {other:?}"),
        Ok(_) => panic!("expected InvalidProtocol error"),
    }
}

#[test]
fn higher_priority_completes_first() {
    let (mut client, mut server) = link(Config::new(Version::QMux01));
    let mut lo = client.open_uni();
    let mut hi = client.open_uni();
    lo.set_priority(&mut client.out.streams, 10);
    hi.set_priority(&mut client.out.streams, 200);

    let mut bulk = Bytes::from(vec![b'L'; 200 * 1024]);
    let mut urgent = Bytes::from(vec![b'H'; 4 * 1024]);
    let step = client.write(&mut lo, &mut bulk).unwrap();
    assert!(matches!(step, Progress::WaitQueue));

    // One frame leaves, and the small payload takes its place.
    let first = client.next_message().unwrap();
    server.recv(first).unwrap();
    assert!(matches!(client.write(&mut hi, &mut urgent).unwrap(), Progress::Done));
    hi.finish(&mut client.out.streams).unwrap();

    let mut seen = None;
    for _ in 0..2 {
        let message = client.next_message().unwrap();
        server.recv(message).unwrap();
    }
    while let Some(id) = server.accepted.pop_front() {
        let (data, end) = server.read(id).unwrap();
        if data.first() == Some(&b'H') {
            assert_eq!(data, vec![b'H'; 4 * 1024]);
            assert!(end);
            seen = Some(id);
        } else {
            assert!(!end, "low-priority stream should still be in-flight");
        }
    }
    assert!(seen.is_some());

    // The low-priority stream must still deliver all bytes.
    let low = lo.id().0.into_inner();
    loop {
        exchange(&mut client, &mut server).unwrap();
        server.read(low).unwrap();
        if matches!(client.write(&mut lo, &mut bulk).unwrap(), Progress::Done) {
            break;
        }
    }
    lo.finish(&mut client.out.streams).unwrap();
    exchange(&mut client, &mut server).unwrap();
    assert!(server.read(low).unwrap().1);
    assert!(bulk.is_empty());
}

#[test]
fn equal_priority_interleaves() {
    let (mut client, mut server) = link(Config::new(Version::QMux01));
    let mut a = client.open_uni();
    let mut b = client.open_uni();
    a.set_priority(&mut client.out.streams, 50);
    b.set_priority(&mut client.out.streams, 50);
    for _ in 0..3 {
        let mut piece = Bytes::from_static(b"A");
        client.write(&mut a, &mut piece).unwrap();
        let mut piece = Bytes::from_static(b"B");
        client.write(&mut b, &mut piece).unwrap();
    }
    let mut order = Vec::new();
    while let Some(message) = client.next_message() {
        for frame in decode_message(message.clone(), Version::QMux01).unwrap() {
            if let Frame::Stream(stream) = frame {
                order.extend_from_slice(&stream.data);
            }
        }
        server.recv(message).unwrap();
    }
    assert_eq!(order, b"ABABAB");
}

#[test]
fn control_precedes_data_backlog() {
    let (mut client, mut server) = link(Config::new(Version::QMux01));
    let mut bulk = client.open_uni();
    let mut signal = client.open_uni();
    bulk.set_priority(&mut client.out.streams, 10);
    let mut x = Bytes::from_static(b"x");
    client.write(&mut signal, &mut x).unwrap();
    let message = client.next_message().unwrap();
    server.recv(message).unwrap();

    let mut backlog = Bytes::from(vec![b'B'; 200 * 1024]);
    client.write(&mut bulk, &mut backlog).unwrap();
    let reset = signal.reset(7).unwrap();
    client.out.send_control(reset);

    // RESET_STREAM should arrive ahead of the data backlog.
    let message = client.next_message().unwrap();
    server.recv(message).unwrap();
    let id = signal.id().0.into_inner();
    let closed = server.find(id).stream.poll_closed();
    assert!(matches!(closed, Some(Err(Error::StreamReset(code))) if code.into_inner() == 7));
}

#[test]
fn mid_stream_set_priority_preserves_order() {
    let (mut client, mut server) = link(Config::new(Version::QMux01));
    // A position-encoded payload, so that any reorder or loss shows.
    let payload: Vec<u8> = (0..200 * 1024).map(|i: u32| (i % 251) as u8).collect();
    let mut filler = client.open_uni();
    filler.set_priority(&mut client.out.streams, 1);
    let mut s = client.open_uni();
    s.set_priority(&mut client.out.streams, 5);
    let mut noise = Bytes::from(vec![b'F'; 40_000]);
    client.write(&mut filler, &mut noise).unwrap();

    let mid = payload.len() / 2;
    let id = s.id().0.into_inner();
    let mut got = Vec::new();
    for half in [&payload[..mid], &payload[mid..]] {
        let mut buf = Bytes::copy_from_slice(half);
        while !matches!(client.write(&mut s, &mut buf).unwrap(), Progress::Done) {
            exchange(&mut client, &mut server).unwrap();
            got.extend(server.read(id).unwrap().0);
        }
        s.set_priority(&mut client.out.streams, 250);
    }
    s.finish(&mut client.out.streams).unwrap();
    exchange(&mut client, &mut server).unwrap();
    got.extend(server.read(id).unwrap().0);
    assert!(got == payload, "byte sequence must be intact and in order");
}

#[test]
fn teardown_unblocks_blocked_writer() {
    let (mut client, _server) = link(Config::new(Version::QMux01));
    let mut s = client.open_uni();
    let mut data = Bytes::from(vec![b'Z'; 1024 * 1024]);
    let step = client.write(&mut s, &mut data).unwrap();
    assert!(matches!(step, Progress::WaitQueue), "writer should be blocked on a full queue");

    client.session.teardown(Error::Closed);
    client.out.streams.close();
    let result = client.write(&mut s, &mut data);
    assert!(matches!(result, Err(Error::Closed)));
}

#[test]
fn reads_are_not_blocked_by_a_stalled_writer() {
    let (mut client, mut server) = link(Config::new(Version::QMux01));
    let mut s = client.open_uni();
    let mut data = Bytes::from(vec![b'C'; 512 * 1024]);
    let step = client.write(&mut s, &mut data).unwrap();
    assert!(matches!(step, Progress::WaitQueue));

    // Nothing of the client leaves, and yet it receives.
    let mut ss = server.open_uni();
    let mut hello = Bytes::from_static(b"hello from server");
    server.write(&mut ss, &mut hello).unwrap();
    ss.finish(&mut server.out.streams).unwrap();
    while let Some(message) = server.next_message() {
        client.recv(message).unwrap();
    }
    let id = client.accepted.pop_front().unwrap();
    assert_eq!(client.read(id).unwrap(), (b"hello from server".to_vec(), true));
}

#[test]
fn datagrams_are_shed_under_backpressure() {
    let (mut client, mut server) = link(Config::new(Version::QMux01));
    assert!(client.session.max_datagram_size() > 0, "datagrams must be enabled for this test");
    for i in 0..200u8 {
        let payload = Bytes::from(vec![i; 8]);
        send_datagram(&client.session, &mut client.out, payload)
            .expect("send_datagram is best-effort and must not error when backpressured");
    }
    exchange(&mut client, &mut server).unwrap();
    assert_eq!(server.datagrams.len(), 64);
    assert_eq!(server.datagrams[63].as_ref(), &[63u8; 8]);
}

#[test]
fn idle_timeout_deferred_but_bounded_under_backpressure() {
    let ms = 1_000_000u64;
    let mut timer = IdleTimer::new(0);
    assert_eq!(timer.deadline(Some(150)), Some(150 * ms));
    // A stuck writer puts the close off, for one more window.
    assert!(timer.on_deadline(150 * ms, 150, true).is_ok());
    assert_eq!(timer.deadline(Some(150)), Some(300 * ms));
    assert!(matches!(
        timer.on_deadline(300 * ms, 150, true),
        Err(Error::IdleTimeout)
    ));

    // What arrives starts over, and a free writer gets no grace.
    let mut timer = IdleTimer::new(0);
    assert!(timer.on_deadline(150 * ms, 150, true).is_ok());
    timer.on_recv(200 * ms);
    assert!(timer.on_deadline(350 * ms, 150, true).is_ok());
    timer.on_recv(400 * ms);
    assert!(matches!(
        timer.on_deadline(550 * ms, 150, false),
        Err(Error::IdleTimeout)
    ));
    assert_eq!(timer.deadline(None), None);
}

/// The bytes that a new session puts on the wire first.
fn first_send(version: Version) -> Vec<u8> {
    let mut peer = Peer::new(false, Config::new(version));
    let message = peer.next_message().unwrap();
    let mut wire = record_header(&message, version).unwrap().to_vec();
    wire.extend_from_slice(&message);
    wire
}

#[test]
fn wire_format_size_prefix_qmux01_only() {
    // QX_TRANSPORT_PARAMETERS encodes to an 8-byte varint that starts with 0xff.
    let qmux00_bytes = first_send(Version::QMux00);
    assert_eq!(qmux00_bytes[0], 0xff);

    let qmux01_bytes = first_send(Version::QMux01);
    assert_ne!(
        qmux01_bytes[0], 0xff,
        "QMux01 must lead with a record size varint, not the raw frame type"
    );
    let size_tag = qmux01_bytes[0] >> 6;
    let size_len = 1usize << size_tag;
    assert_eq!(qmux01_bytes[size_len], 0xff);
}

#[test]
fn record_round_trip_multiple_frames() {
    let stream_id = StreamId(VarInt::from_u32(0));
    let frames = vec![
        Frame::Stream(Stream {
            id: stream_id,
            data: Bytes::from_static(b"hello"),
            fin: false,
        }),
        Frame::Ping(Ping {
            sequence: 42,
            response: false,
        }),
        Frame::MaxData(1024),
    ];

    let mut body = BytesMut::new();
    for frame in &frames {
        body.extend_from_slice(&frame.encode(Version::QMux01).unwrap());
    }

    let decoded = Frame::decode_record(body.freeze()).unwrap();
    assert_eq!(decoded.len(), 3);
    match &decoded[0] {
        Frame::Stream(s) => {
            assert_eq!(s.data.as_ref(), b"hello");
            assert!(!s.fin);
        }
        other => panic!("expected Stream, got {other:?}"),
    }
    match &decoded[1] {
        Frame::Ping(p) => {
            assert_eq!(p.sequence, 42);
            assert!(!p.response);
        }
        other => panic!("expected Ping, got {other:?}"),
    }
    match &decoded[2] {
        Frame::MaxData(v) => assert_eq!(*v, 1024),
        other => panic!("expected MaxData, got {other:?}"),
    }
}

/// One end of a byte stream.
struct Wire {
    peer: Peer,
    reader: StreamReader,
}

impl Wire {
    fn new(is_server: bool, version: Version) -> Wire {
        Wire {
            peer: Peer::new(is_server, tcp::Config::new(version).build()),
            reader: StreamReader::new(version, 16 * 1024),
        }
    }

    /// Carry everything over, a few bytes at a time.
    fn carry_to(&mut self, other: &mut Wire) {
        while let Some(message) = self.peer.next_message() {
            let header = record_header(&message, self.peer.session.version()).unwrap();
            for piece in header.chunks(3).chain(message.chunks(3)) {
                other.reader.feed(piece);
                while let Some(received) = other.reader.recv() {
                    other.peer.recv(received.unwrap()).unwrap();
                }
            }
        }
    }

    fn echo(version: Version, text: &'static [u8]) {
        let mut client = Wire::new(false, version);
        let mut server = Wire::new(true, version);
        client.carry_to(&mut server);
        server.carry_to(&mut client);

        let mut send = client.peer.open_uni();
        let mut data = Bytes::from_static(text);
        client.peer.write(&mut send, &mut data).unwrap();
        send.finish(&mut client.peer.out.streams).unwrap();
        client.carry_to(&mut server);
        let id = server.peer.accepted.pop_front().unwrap();
        let (payload, end) = server.peer.read(id).unwrap();
        assert!(end);

        let mut back = server.peer.open_uni();
        let mut data = Bytes::from(payload);
        server.peer.write(&mut back, &mut data).unwrap();
        back.finish(&mut server.peer.out.streams).unwrap();
        server.carry_to(&mut client);
        let id = client.peer.accepted.pop_front().unwrap();
        assert_eq!(client.peer.read(id).unwrap(), (text.to_vec(), true));

        close(&mut client.peer.session, &mut client.peer.out, 0, "done");
        client.carry_to(&mut server);
        assert!(matches!(
            server.peer.session.close_reason(),
            Some(Error::ConnectionClosed { code, reason }) if code.into_inner() == 0 && reason == "done"
        ));
    }
}

#[test]
fn qmux00_tcp_round_trip_unchanged() {
    Wire::echo(Version::QMux00, b"qmux00");
}

#[test]
fn qmux01_tcp_stream_and_ping() {
    Wire::echo(Version::QMux01, b"qmux01");

    // A ping is answered with its own sequence number.
    let (mut client, mut server) = link(Config::new(Version::QMux01));
    let mut writer = WriterState::new();
    writer.ping();
    let ping = writer.ping();
    assert!(matches!(&ping, Frame::Ping(p) if p.sequence == 1 && !p.response));
    client.out.send_control(ping);
    let message = client.next_message().unwrap();
    server.recv(message).unwrap();
    let answer = server.next_message().unwrap();
    assert!(matches!(
        &decode_message(answer, Version::QMux01).unwrap()[0],
        Frame::Ping(p) if p.sequence == 1 && p.response
    ));
}

#[test]
fn qmux01_ping_keeps_idle_session_alive() {
    let mut config = Config::new(Version::QMux01);
    config.max_idle_timeout = 150;
    let (client, _server) = link(config);
    let idle = client.session.effective_idle_timeout_ms().unwrap();
    assert_eq!(idle, 150);
    let pace = WriterState::ping_after_ms(client.session.idle_timeout_ms()).unwrap();
    assert_eq!(pace, 50);

    // An answer to each ping moves the deadline before it passes.
    let ms = 1_000_000u64;
    let mut timer = IdleTimer::new(0);
    for tick in 1..=10u64 {
        let now = tick * pace * ms;
        assert!(timer.deadline(Some(idle)).unwrap() > now, "idle-closed despite the keep-alive ping");
        timer.on_recv(now);
    }
}

#[test]
fn the_smaller_idle_timeout_counts() {
    assert_eq!(negotiated_idle_timeout_ms(0, 0), 0);
    assert_eq!(negotiated_idle_timeout_ms(0, 7), 7);
    assert_eq!(negotiated_idle_timeout_ms(9, 0), 9);
    assert_eq!(negotiated_idle_timeout_ms(9, 7), 7);
    assert_eq!(WriterState::ping_after_ms(0), None);
    assert_eq!(WriterState::ping_after_ms(2), Some(1));
}

#[test]
fn a_stream_over_its_window_waits() {
    let mut config = Config::new(Version::QMux01);
    config.max_stream_data_uni = 10;
    let (mut client, mut server) = link(config);
    let mut s = client.open_uni();
    let mut data = Bytes::from_static(b"0123456789abcdef");
    assert!(matches!(client.write(&mut s, &mut data).unwrap(), Progress::WaitCredit));
    assert_eq!(&data[..], b"abcdef");

    // Reading grants more.
    exchange(&mut client, &mut server).unwrap();
    let id = s.id().0.into_inner();
    assert_eq!(server.read(id).unwrap(), (b"0123456789".to_vec(), false));
    exchange(&mut client, &mut server).unwrap();
    assert!(matches!(client.write(&mut s, &mut data).unwrap(), Progress::Done));
    assert!(data.is_empty());
}

#[test]
fn a_peer_over_the_window_is_refused() {
    let mut config = Config::new(Version::QMux01);
    config.max_stream_data_uni = 4;
    let mut client = Peer::new(false, config);
    client.recv(uni_stream(0, b"four", false)).unwrap();
    assert!(matches!(
        client.recv(uni_stream(0, b"5", false)),
        Err(Error::FlowControlError)
    ));
}

#[test]
fn streams_over_the_limit_wait_and_are_refused() {
    let mut config = Config::new(Version::QMux01);
    config.max_streams_uni = 1;
    let (mut client, _server) = link(config);
    assert!(client.session.open_uni().unwrap().is_some());
    assert!(client.session.open_uni().unwrap().is_none());
    assert!(client.recv(uni_stream(0, b"a", false)).is_ok());
    assert!(matches!(
        client.recv(uni_stream(1, b"b", false)),
        Err(Error::StreamLimitExceeded)
    ));
}

#[test]
fn letting_go_of_a_stream_opens_another() {
    let mut config = Config::new(Version::QMux01);
    config.max_streams_uni = 1;
    let (mut client, mut server) = link(config);
    let mut s = client.open_uni();
    let mut data = Bytes::from_static(b"x");
    client.write(&mut s, &mut data).unwrap();
    exchange(&mut client, &mut server).unwrap();
    assert!(client.session.open_uni().unwrap().is_none());

    let mut incoming = server.incoming.remove(0);
    let (stop, update) = incoming.stream.on_drop(&mut server.session);
    assert!(matches!(stop, Some(Frame::StopSending(StopSending { code, .. })) if code.into_inner() == 0));
    assert!(matches!(update, Some(Frame::MaxStreamsUni(2))));
    server.out.send_control(update.unwrap());
    exchange(&mut client, &mut server).unwrap();
    assert!(client.session.open_uni().unwrap().is_some());
}

#[test]
fn a_stream_on_the_wrong_side_is_refused() {
    // A client cannot receive on a unidirectional stream of its own.
    let mut client = Peer::new(false, Config::new(Version::QMux01));
    let own = Frame::Stream(Stream {
        id: StreamId::new(0, StreamDir::Uni, false),
        data: Bytes::from_static(b"x"),
        fin: false,
    });
    assert!(matches!(
        client.recv(own.encode(Version::QMux01).unwrap()),
        Err(Error::InvalidStreamId)
    ));
}

#[test]
fn the_legacy_format_is_established_at_once() {
    let (session, first) = SessionState::new(false, Config::new(Version::WebTransport));
    assert!(first.is_none());
    assert!(session.is_established());
    assert_eq!(session.max_datagram_size(), 0);
    assert!(matches!(
        session.check_datagram(&Bytes::from_static(b"x")),
        Err(Error::DatagramsUnsupported)
    ));
}

#[test]
fn a_datagram_has_a_largest_size() {
    let mut config = Config::new(Version::QMux01);
    config.max_datagram_frame_size = 100;
    let (client, _server) = link(config);
    assert_eq!(client.session.max_datagram_size(), 97);
    assert!(client.session.check_datagram(&Bytes::from(vec![0; 97])).is_ok());
    assert!(matches!(
        client.session.check_datagram(&Bytes::from(vec![0; 98])),
        Err(Error::FrameTooLarge)
    ));
    let largest = Datagram::from(Bytes::from(vec![0; 97]));
    assert_eq!(largest.frame_size(), 100);
}

#[test]
fn parameters_come_once() {
    let mut server = raw_peer(Config::new(Version::QMux01));
    let again = Frame::TransportParameters(TransportParams::default());
    assert!(server.recv(again.encode(Version::QMux01).unwrap()).is_err());
}

#[test]
fn a_handshake_can_time_out() {
    let (mut session, _first) = SessionState::new(false, Config::new(Version::QMux01));
    let (result, frame) = match finish_handshake(&mut session, Handshake::TimedOut) {
        Ok(()) => panic!("a handshake that timed out"),
        Err((err, frame)) => (err, frame),
    };
    assert!(matches!(result, Error::HandshakeTimeout));
    assert!(matches!(frame, Some(Frame::ConnectionClose(c)) if c.reason == "handshake timeout"));
    assert!(matches!(session.close_reason(), Some(Error::HandshakeTimeout)));
}

#[test]
fn credit_that_is_released_can_be_claimed_again() {
    let mut config = Config::new(Version::QMux01);
    config.max_stream_data_uni = 10;
    let (mut client, _server) = link(config);
    let id = client.session.open_uni().unwrap().unwrap();
    assert_eq!(client.session.claim_credit(&id, 25).unwrap(), Some(10));
    assert_eq!(client.session.claim_credit(&id, 1).unwrap(), None);
    client.session.release_credit(&id, 4);
    assert_eq!(client.session.claim_credit(&id, 25).unwrap(), Some(4));
}

#[test]
fn the_first_reason_of_a_close_stays() {
    let (mut session, _first) = SessionState::new(false, Config::new(Version::QMux01));
    session.note_closed(Error::IdleTimeout);
    session.note_closed(Error::Closed);
    assert!(matches!(session.close_reason(), Some(Error::IdleTimeout)));
}

#[test]
fn a_finished_stream_takes_no_more() {
    let (mut client, _server) = link(Config::new(Version::QMux01));
    let mut s = client.open_uni();
    s.finish(&mut client.out.streams).unwrap();
    let mut data = Bytes::from_static(b"x");
    assert!(matches!(client.write(&mut s, &mut data), Err(Error::StreamClosed)));
    assert!(s.on_drop().is_none());

    let mut dropped = client.open_uni();
    assert!(matches!(dropped.on_drop(), Some(Frame::ResetStream(r)) if r.code.into_inner() == 0));
}

#[test]
fn a_stop_is_answered_with_a_reset() {
    let (mut client, _server) = link(Config::new(Version::QMux01));
    let mut s = client.open_uni();
    let mut data = Bytes::from_static(b"abc");
    client.write(&mut s, &mut data).unwrap();
    let (err, frame) = s.recv_stop(VarInt::from_u32(9));
    assert!(matches!(err, Error::StreamStop(code) if code.into_inner() == 9));
    assert!(matches!(
        frame,
        Some(Frame::ResetStream(r)) if r.final_size == 3 && r.code.into_inner() == 9
    ));
    assert!(matches!(s.close_reason(), Some(Error::StreamStop(_))));
}

#[test]
fn recorded_streams_are_closed() {
    let mut open = RecvOpen::new();
    assert!(!open.is_closed(3));
    open.record(3);
    assert!(open.is_closed(3));
    assert!(!open.is_closed(2));
    open.record(0);
    open.record(1);
    assert!(open.is_closed(0) && open.is_closed(1) && !open.is_closed(2));
    open.record(2);
    assert!(open.is_closed(2) && open.is_closed(3) && !open.is_closed(4));
}

#[test]
fn stream_ids_have_parts() {
    let id = StreamId::new(5, StreamDir::Uni, true);
    assert_eq!(id.0.into_inner(), 5 * 4 + 3);
    assert!(matches!(id.dir(), StreamDir::Uni));
    assert!(id.server_initiated());
    assert_eq!(id.index(), 5);
    assert!(id.can_recv(false) && !id.can_send(false));
    assert!(id.can_send(true) && !id.can_recv(true));
    let bidi = StreamId::new(2, StreamDir::Bi, false);
    assert_eq!(bidi.0.into_inner(), 8);
    assert!(bidi.can_recv(true) && bidi.can_send(true));
}

#[test]
fn a_negotiated_session_knows_its_protocol() {
    let config = Config::negotiated(Version::QMux01, Some("chat".to_string()));
    let (session, _first) = SessionState::new(true, config);
    assert_eq!(session.protocol(), Some("chat"));
    let (session, _first) = SessionState::new(true, Config::new(Version::QMux01));
    assert_eq!(session.protocol(), None);
    assert!(matches!(Config::default().protocol, Protocol::NoProtocol));
}

#[test]
fn only_a_ping_request_is_answered() {
    let mut server = raw_peer(Config::new(Version::QMux01));
    let ping = |sequence: u64, response: bool| Frame::Ping(Ping { sequence, response });
    assert!(matches!(
        server.session.recv_frame(ping(9, false)).unwrap(),
        Event::Respond(Frame::Ping(Ping { sequence: 9, response: true }))
    ));
    assert!(matches!(
        server.session.recv_frame(ping(9, true)).unwrap(),
        Event::Nothing
    ));
}

#[test]
fn repeated_parameters_change_nothing() {
    let (mut server, mut client) = tcp_pair(Some(&["a", "b"]), Some(&["b"]));
    exchange(&mut client, &mut server).unwrap();
    assert_eq!(server.session.protocol(), Some("b"));
    let size = server.session.max_datagram_size();
    assert!(size > 0);
    let again = TransportParams::default();
    assert!(server.session.recv_transport_parameters(again).is_err());
    assert_eq!(server.session.protocol(), Some("b"));
    assert_eq!(server.session.max_datagram_size(), size);
    assert!(server.session.is_established());
    assert!(server.session.open_uni().unwrap().is_some());
}

#[test]
fn refused_parameters_give_no_credit() {
    let mut server = Peer::new(true, Config::new(Version::QMux01));
    let mut params = Config::new(Version::QMux01).to_transport_params();
    params.protocols = v(&["a"]);
    assert!(matches!(
        server.session.recv_transport_parameters(params),
        Err(Error::UnexpectedProtocols)
    ));
    assert!(!server.session.is_established());
    assert_eq!(server.session.protocol(), None);
    assert_eq!(server.session.max_datagram_size(), 0);
    assert!(server.session.open_uni().unwrap().is_none());
    assert!(server.session.open_bi().unwrap().is_none());

    // They were received all the same: others are the second.
    let params = Config::new(Version::QMux01).to_transport_params();
    assert!(matches!(
        server.session.recv_transport_parameters(params),
        Err(Error::FlowControlError)
    ));
    assert!(!server.session.is_established());
}

#[test]
fn a_refused_frame_leaves_the_stream() {
    let mut config = Config::new(Version::QMux01);
    config.max_stream_data_uni = 4;
    let (mut client, _first) = SessionState::new(false, config);
    let stream = |data: &'static [u8]| {
        Frame::Stream(Stream {
            id: StreamId::new(0, StreamDir::Uni, true),
            data: Bytes::from_static(data),
            fin: false,
        })
    };
    assert!(matches!(client.recv_frame(stream(b"abc")).unwrap(), Event::Accept(_)));
    assert!(matches!(
        client.recv_frame(stream(b"de")),
        Err(Error::FlowControlError)
    ));
    // The stream is still known, with the credit that it had.
    assert!(matches!(
        client.recv_frame(stream(b"d")).unwrap(),
        Event::Deliver(s) if &s.data[..] == b"d"
    ));
}

#[test]
fn a_reset_keeps_its_final_size() {
    let mut client = Peer::new(false, Config::new(Version::QMux01));
    client.recv(uni_stream(0, b"abc", false)).unwrap();
    let reset = Frame::ResetStream(ResetStream {
        id: StreamId::new(0, StreamDir::Uni, true),
        code: VarInt::from_u32(5),
        final_size: 3,
    });
    assert!(matches!(
        client.session.recv_frame(reset).unwrap(),
        Event::Reset(r) if r.code.into_inner() == 5 && r.final_size == 3
    ));
}

#[test]
fn sending_a_datagram_ends_in_four_ways() {
    let x = || Bytes::from_static(b"x");
    let mut out = Outbound::new();
    let (session, _first) = SessionState::new(false, Config::new(Version::QMux01));
    assert!(matches!(
        send_datagram(&session, &mut out, x()),
        Err(Error::DatagramsUnsupported)
    ));

    let mut config = Config::new(Version::QMux01);
    config.max_datagram_frame_size = 100;
    let (mut client, _server) = link(config);
    assert!(matches!(
        send_datagram(&client.session, &mut client.out, Bytes::from(vec![0; 98])),
        Err(Error::FrameTooLarge)
    ));
    assert!(client.next_message().is_none());
    assert!(send_datagram(&client.session, &mut client.out, x()).is_ok());
    client.out.stop();
    assert!(matches!(
        send_datagram(&client.session, &mut client.out, x()),
        Err(Error::Closed)
    ));
    // What was queued before still goes out.
    let message = client.next_message().unwrap();
    assert!(matches!(
        &decode_message(message, Version::QMux01).unwrap()[..],
        [Frame::Datagram(d)] if &d.data[..] == b"x"
    ));
    assert!(client.next_message().is_none());
}

#[test]
fn received_datagrams_wait_in_order_up_to_a_number() {
    let mut waiting = InboundDatagrams::new();
    assert!(waiting.receive().is_none());
    for i in 0..DATAGRAM_RECV_BUFFER + 5 {
        waiting.deliver(Bytes::from(i.to_be_bytes().to_vec()));
    }
    for i in 0..DATAGRAM_RECV_BUFFER {
        assert_eq!(&waiting.receive().unwrap()[..], &i.to_be_bytes()[..]);
    }
    assert!(waiting.receive().is_none());
    waiting.deliver(Bytes::from_static(b"later"));
    assert_eq!(&waiting.receive().unwrap()[..], b"later");
}

#[test]
fn too_many_streams_to_accept_block_the_reader() {
    assert!(!accept_blocked(0));
    assert!(!accept_blocked(ACCEPT_BUFFER));
    assert!(accept_blocked(ACCEPT_BUFFER + 1));
}

#[test]
fn a_writer_sends_what_waits_and_stops_at_the_close() {
    let (mut client, _server) = link(Config::new(Version::QMux01));
    assert!(matches!(write_step(&mut client.session, &mut client.out), WriteTask::Wait));
    client.out.send_control(Frame::MaxData(5));
    assert!(matches!(
        write_step(&mut client.session, &mut client.out),
        WriteTask::Send(b) if &b[..] == [0x10, 0x05]
    ));
    // An integer that does not fit in its encoding cannot be sent.
    client.out.send_control(Frame::MaxData(u64::MAX));
    assert!(matches!(
        write_step(&mut client.session, &mut client.out),
        WriteTask::Fail(Error::FlowControlError)
    ));
    close(&mut client.session, &mut client.out, 7, "bye");
    assert!(matches!(
        write_step(&mut client.session, &mut client.out),
        WriteTask::Send(_)
    ));
    assert!(matches!(write_step(&mut client.session, &mut client.out), WriteTask::Stop));
}

#[test]
fn a_torn_down_writer_stops() {
    let (mut client, _server) = link(Config::new(Version::QMux01));
    client.out.streams.close();
    assert!(matches!(write_step(&mut client.session, &mut client.out), WriteTask::Stop));
}

#[test]
fn control_goes_before_datagrams_and_streams() {
    let (mut client, _server) = link(Config::new(Version::QMux01));
    let mut s = client.open_uni();
    let mut data = Bytes::from_static(b"bulk");
    client.write(&mut s, &mut data).unwrap();
    send_datagram(&client.session, &mut client.out, Bytes::from_static(b"d")).unwrap();
    client.out.send_control(Frame::MaxData(1));
    client.out.send_control(Frame::MaxData(2));
    let mut order = Vec::new();
    while let Next::Frame(frame) = client.out.next_outbound() {
        order.push(match frame {
            Frame::MaxData(n) => format!("control {n}"),
            Frame::Datagram(_) => "datagram".to_string(),
            Frame::Stream(_) => "stream".to_string(),
            other => panic!("{other:?}"),
        });
    }
    assert_eq!(order, ["control 1", "control 2", "datagram", "stream"]);
}

#[test]
fn reads_of_any_size_give_back_what_was_sent() {
    for max in [1, 2, 3, 7, 100] {
        let mut client = Peer::new(false, Config::new(Version::QMux01));
        let parts: [&'static [u8]; 3] = [b"hello", b"", b" world"];
        for (i, part) in parts.into_iter().enumerate() {
            client.recv(uni_stream(0, part, i == 2)).unwrap();
        }
        let incoming = &mut client.incoming[0];
        let mut all = Vec::new();
        loop {
            match incoming.stream.read_chunk(&mut client.session, max).unwrap() {
                ReadStep::Data(data, _, _) => {
                    assert!(data.len() <= max);
                    all.extend_from_slice(&data);
                }
                ReadStep::Wait => incoming.stream.on_data(incoming.waiting.pop_front().unwrap()),
                ReadStep::End => break,
            }
        }
        assert_eq!(all, b"hello world");
    }
}

#[test]
fn waiting_for_the_end_does_not_keep_the_data() {
    let mut client = Peer::new(false, Config::new(Version::QMux01));
    client.recv(uni_stream(0, b"abc", false)).unwrap();
    client.recv(uni_stream(0, b"def", true)).unwrap();
    let incoming = &mut client.incoming[0];
    assert!(incoming.stream.poll_closed().is_none());
    while let Some(next) = incoming.waiting.pop_front() {
        incoming.stream.on_data_unread(next);
    }
    assert!(matches!(incoming.stream.poll_closed(), Some(Ok(()))));
}

fn closed_with(session: &SessionState) -> (u64, String) {
    match session.close_reason() {
        Some(Error::ConnectionClosed { code, reason }) => (code.into_inner(), reason),
        other => panic!("{other:?}"),
    }
}

#[test]
fn the_last_close_counts_while_somebody_listens() {
    let (mut client, _server) = link(Config::new(Version::QMux01));
    close(&mut client.session, &mut client.out, 1, "first");
    close(&mut client.session, &mut client.out, 2, "second");
    assert_eq!(closed_with(&client.session), (2, "second".to_string()));

    // The writer of a torn-down session still listens until it stops.
    client.session.teardown(Error::IdleTimeout);
    close(&mut client.session, &mut client.out, 3, "third");
    assert_eq!(closed_with(&client.session), (3, "third".to_string()));

    // Without the writer, the reader does.
    let (mut client, _server) = link(Config::new(Version::QMux01));
    client.out.stop();
    close(&mut client.session, &mut client.out, 4, "fourth");
    assert_eq!(closed_with(&client.session), (4, "fourth".to_string()));
}

#[test]
fn the_reason_of_the_end_stays() {
    let (mut client, _server) = link(Config::new(Version::QMux01));
    client.session.teardown(Error::IdleTimeout);
    client.out.stop();
    close(&mut client.session, &mut client.out, 7, "bye");
    assert!(matches!(client.session.close_reason(), Some(Error::IdleTimeout)));
}

/// A client with a stream whose window is 10 bytes, all of which wait for a full
/// queue.
fn full_queue() -> (Peer, SendStream) {
    let mut config = Config::new(Version::QMux01);
    config.max_stream_data_uni = 10;
    let (mut client, _server) = link(config);
    let mut s = client.open_uni();
    let id = s.id();
    while client
        .out
        .streams
        .push(0, &StreamId::new(9, StreamDir::Uni, false), Frame::Padding)
        .unwrap()
    {}
    let mut data = Bytes::from_static(b"0123456789abcdef");
    assert_eq!(client.write(&mut s, &mut data).unwrap(), Progress::WaitQueue);
    // The piece has its credit, and left the buffer.
    assert_eq!(&data[..], b"abcdef");
    assert_eq!(client.session.claim_credit(&id, 1).unwrap(), None);
    (client, s)
}

#[test]
fn a_piece_waits_for_the_queue_with_its_credit() {
    let (mut client, mut s) = full_queue();
    let mut rest = Bytes::from_static(b"abcdef");
    assert_eq!(client.write(&mut s, &mut rest).unwrap(), Progress::WaitQueue);
    while let Next::Frame(_) = client.out.next_outbound() {}
    assert_eq!(client.write(&mut s, &mut rest).unwrap(), Progress::WaitCredit);
    assert_eq!(&rest[..], b"abcdef");
    assert!(matches!(
        client.out.next_outbound(),
        Next::Frame(Frame::Stream(f)) if &f.data[..] == b"0123456789"
    ));
}

#[test]
fn a_closed_queue_gives_the_credit_back() {
    let (mut client, mut s) = full_queue();
    client.out.streams.close();
    let mut rest = Bytes::from_static(b"abcdef");
    assert!(matches!(client.write(&mut s, &mut rest), Err(Error::Closed)));
    assert_eq!(client.session.claim_credit(&s.id(), 25).unwrap(), Some(10));
    client.session.release_credit(&s.id(), 10);

    // A piece that never waited is taken off the buffer too.
    assert!(matches!(client.write(&mut s, &mut rest), Err(Error::Closed)));
    assert!(rest.is_empty());
    assert_eq!(client.session.claim_credit(&s.id(), 25).unwrap(), Some(10));
    // None of it was sent.
    assert!(matches!(s.reset(3), Some(Frame::ResetStream(r)) if r.final_size == 0));
}

#[test]
fn a_stop_gives_the_credit_of_a_waiting_piece_back() {
    let (mut client, mut s) = full_queue();
    let piece = client.pieces.remove(&s.id().0.into_inner()).unwrap();
    let (err, frame) = s.recv_stop_waiting(&mut client.session, piece, VarInt::from_u32(9));
    assert!(matches!(err, Error::StreamStop(code) if code.into_inner() == 9));
    assert!(matches!(frame, Some(Frame::ResetStream(r)) if r.final_size == 0));
    assert_eq!(client.session.claim_credit(&s.id(), 25).unwrap(), Some(10));
}

#[test]
fn a_read_of_nothing_reports_the_end_unless_data_waited() {
    let mut client = Peer::new(false, Config::new(Version::QMux01));
    client.recv(uni_stream(0, b"abc", true)).unwrap();
    let incoming = &mut client.incoming[0];
    assert!(!incoming.stream.is_buffered());
    incoming.stream.on_data(incoming.waiting.pop_front().unwrap());
    assert!(incoming.stream.is_buffered());

    assert_eq!(read_reported(true, Some(0)), Some(0));
    assert_eq!(read_reported(false, Some(0)), None);
    assert_eq!(read_reported(false, Some(3)), Some(3));
    assert_eq!(read_reported(true, None), None);
}
