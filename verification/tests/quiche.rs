//! The streams over quiche, against a connection that the tests play.

use std::time::Duration;

use bytes::Bytes;
use web_transport::http3::SessionHeaders;
use web_transport::qmux::proto::VarInt;
use web_transport::quiche::client::{ConnectPlan, Settings, first_remote, request_target};
use web_transport::quiche::connection::{
    CapsuleStep, DatagramQueued, PathStats, TransportStats, max_datagram_size, on_capsule,
    send_datagram, session_datagram_size,
};
use web_transport::quiche::recv::{ReadAll, RecvReply, RecvStep};
use web_transport::quiche::send::{CapacityReply, SendCall, SendReply, SendStep, ShutdownReply};
use web_transport::quiche::{
    Capsule, ClientBuilder, ClientError, ClientVerify, ConnectionClosed, ConnectionError,
    ConnectionStats, RecvState, SendState, StreamError,
};
use web_transport::url::ParsedUrl;

type Failure = &'static str;

/// Give the stream so much capacity.
fn grant(state: &mut SendState<u8>, n: usize) -> Option<u8> {
    let step = state.flush();
    assert!(matches!(step, SendStep::Call(SendCall::Capacity)));
    match state.on_capacity::<Failure>(CapacityReply::Capacity(n)) {
        Ok(SendStep::Done(waker)) => waker,
        other => panic!("{other:?}"),
    }
}

#[test]
fn a_write_waits_for_capacity() {
    let mut state: SendState<u8> = SendState::new(4);
    assert!(matches!(state.is_finished(), Ok(false)));
    let mut buf = Bytes::from_static(b"hello");
    assert!(state.poll_write_buf(&7, &mut buf).is_none());
    assert_eq!(grant(&mut state, 3), Some(7));
    assert!(matches!(state.poll_write_buf(&7, &mut buf), Some(Ok(3))));
    assert_eq!(&buf[..], b"lo");
    assert!(state.poll_write_buf(&7, &mut buf).is_none());
    assert_eq!(state.id(), 4);
}

#[test]
fn a_flush_sends_everything_and_then_the_fin() {
    let mut state: SendState<u8> = SendState::new(0);
    grant(&mut state, 100);
    let mut buf = Bytes::from_static(b"hello");
    state.poll_write_buf(&1, &mut buf);
    state.finish().unwrap();
    state.set_priority(9);
    let step = state.flush();
    assert!(matches!(step, SendStep::Call(SendCall::Priority { priority: 9 })));
    let step = state.on_priority::<Failure>(Ok(())).unwrap();
    let chunk = match step {
        SendStep::Call(SendCall::Send { chunk }) => chunk,
        other => panic!("{other:?}"),
    };
    // Only a part is taken: the rest waits.
    let step = state.on_send::<Failure>(chunk, SendReply::Sent(2)).unwrap();
    assert!(matches!(step, SendStep::Call(SendCall::Writable)));
    let step = state.on_writable::<Failure>(Ok(())).unwrap();
    assert!(matches!(step, SendStep::Call(SendCall::Capacity)));
    let step = state.on_capacity::<Failure>(CapacityReply::Capacity(0)).unwrap();
    assert!(matches!(step, SendStep::Done(None)));

    let chunk = match state.flush() {
        SendStep::Call(SendCall::Send { chunk }) => chunk,
        other => panic!("{other:?}"),
    };
    assert_eq!(&chunk[..], b"llo");
    let step = state.on_send::<Failure>(chunk, SendReply::Sent(3)).unwrap();
    assert!(matches!(step, SendStep::Call(SendCall::Finish)));
    assert!(!state.is_closed());
    assert!(matches!(state.on_finish::<Failure>(Ok(())), Ok(SendStep::Done(None))));
    assert!(state.is_closed());
    assert!(matches!(state.poll_closed(&1), Some(Ok(()))));
    assert!(matches!(state.is_finished(), Ok(true)));
    assert!(!state.on_drop());
}

#[test]
fn a_blocked_chunk_goes_back_whole() {
    let mut state: SendState<u8> = SendState::new(0);
    grant(&mut state, 100);
    let mut buf = Bytes::from_static(b"hello");
    state.poll_write_buf(&1, &mut buf);
    let chunk = match state.flush() {
        SendStep::Call(SendCall::Send { chunk }) => chunk,
        other => panic!("{other:?}"),
    };
    let step = state.on_send::<Failure>(chunk, SendReply::Blocked).unwrap();
    assert!(matches!(step, SendStep::Call(SendCall::Writable)));
    assert!(matches!(state.on_writable(Err("down")), Err("down")));
    assert!(matches!(state.flush(), SendStep::Call(SendCall::Send { chunk }) if &chunk[..] == b"hello"));
}

/// Resetting one stream leaves the connection alone, whatever became of the
/// stream before.
#[test]
fn reset_stream_keeps_connection_alive() {
    for reply in [ShutdownReply::Done, ShutdownReply::Gone] {
        let mut state: SendState<u8> = SendState::new(0);
        assert!(state.poll_closed(&5).is_none());
        state.reset(7);
        let mut buf = Bytes::from_static(b"x");
        assert!(matches!(state.poll_write_buf(&5, &mut buf), Some(Err(StreamError::Reset(7)))));
        let step = state.flush();
        assert!(matches!(step, SendStep::Call(SendCall::Shutdown { code: 7 })));
        let result: Result<SendStep<u8>, Failure> = state.on_shutdown(reply);
        assert!(matches!(result, Ok(SendStep::Done(Some(5)))));
        assert!(state.is_closed());
        assert!(matches!(state.finish(), Err(StreamError::Reset(7))));
        assert!(matches!(state.is_finished(), Err(StreamError::Reset(7))));
    }
    let mut state: SendState<u8> = SendState::new(0);
    state.reset(7);
    let _step = state.flush();
    assert!(matches!(state.on_shutdown(ShutdownReply::Failed("down")), Err("down")));

    let mut state: RecvState<u8> = RecvState::new(0);
    state.stop(8);
    assert!(matches!(state.flush(), RecvStep::Shutdown { code: 8 }));
    let result: Result<RecvStep<u8>, Failure> = state.on_shutdown(ShutdownReply::Gone);
    assert!(matches!(result, Ok(RecvStep::Done(None))));
    assert!(state.is_closed());
}

#[test]
fn a_stop_of_the_peer_ends_the_stream() {
    let mut state: SendState<u8> = SendState::new(0);
    let step = state.flush();
    assert!(matches!(step, SendStep::Call(SendCall::Capacity)));
    let step = state.on_capacity::<Failure>(CapacityReply::Stopped(6)).unwrap();
    assert!(matches!(step, SendStep::Done(None)));
    let mut buf = Bytes::from_static(b"x");
    assert!(matches!(state.poll_write_buf(&5, &mut buf), Some(Err(StreamError::Stop(6)))));
    assert!(matches!(state.is_finished(), Ok(true)));
    assert!(state.is_closed());
    // The flush that forgets the code does not forget the stop.
    assert!(matches!(state.flush(), SendStep::Done(None)));
    assert!(matches!(state.is_finished(), Ok(true)));
    assert!(matches!(state.poll_closed(&5), Some(Ok(()))));
}

#[test]
fn a_dropped_stream_is_given_up() {
    let mut state: SendState<u8> = SendState::new(0);
    assert!(state.on_drop());
    assert!(matches!(state.flush(), SendStep::Call(SendCall::Shutdown { code: 0x73656E64 })));
    let mut state: RecvState<u8> = RecvState::new(0);
    assert!(state.on_drop());
    assert!(matches!(state.flush(), RecvStep::Shutdown { code: 0x72656376 }));
    assert!(!state.on_drop());
}

#[test]
fn a_write_sees_the_end_of_the_connection() {
    let mut state: SendState<u8> = SendState::new(0);
    let mut connection = ConnectionClosed::new();
    let mut buf = Bytes::from_static(b"x");
    assert!(state.poll_write(&mut connection, &5, &mut buf).is_none());
    assert_eq!(connection.abort(ConnectionError::Dropped), vec![5]);
    assert!(matches!(
        state.poll_write(&mut connection, &5, &mut buf),
        Some(Err(StreamError::Connection(ConnectionError::Dropped)))
    ));
}

#[test]
fn reads_take_what_arrived() {
    let mut state: RecvState<u8> = RecvState::new(3);
    assert!(matches!(state.poll_read_chunk(&5, 0), Some(Ok(Some(b))) if b.is_empty()));
    assert!(matches!(state.flush(), RecvStep::Done(None)));
    assert!(state.poll_read_chunk(&5, 100).is_none());
    // The first buffer has room for 64 bytes.
    let changed = match state.flush() {
        RecvStep::Recv { max: 64, changed } => changed,
        other => panic!("{other:?}"),
    };
    let data = Bytes::from(vec![1u8; 64]);
    let step = state.on_recv::<Failure>(changed, RecvReply::Data { data, fin: false }).unwrap();
    // 36 more are wanted, of a buffer that doubled.
    assert!(matches!(step, RecvStep::Recv { max: 36, changed: true }));
    let step = state.on_recv::<Failure>(true, RecvReply::Blocked { finished: false }).unwrap();
    assert!(matches!(step, RecvStep::Done(Some(5))));
    assert!(matches!(state.poll_read_chunk(&5, 10), Some(Ok(Some(b))) if b.len() == 10));
    assert!(matches!(state.poll_read_chunk(&5, 100), Some(Ok(Some(b))) if b.len() == 54));
    assert_eq!(state.id(), 3);
}

#[test]
fn the_end_of_a_stream_is_read_last() {
    let mut state: RecvState<u8> = RecvState::new(0);
    assert!(state.poll_read_chunk(&5, 10).is_none());
    assert!(state.poll_closed(&6).is_none());
    let _step = state.flush();
    let data = Bytes::from_static(b"bye");
    let step = state.on_recv::<Failure>(false, RecvReply::Data { data, fin: true }).unwrap();
    assert!(matches!(step, RecvStep::Done(Some(6))));
    assert!(state.poll_closed(&6).is_none());
    assert!(matches!(state.poll_read_chunk(&5, 10), Some(Ok(Some(b))) if &b[..] == b"bye"));
    assert!(matches!(state.poll_read_chunk(&5, 10), Some(Ok(None))));
    assert!(matches!(state.poll_closed(&6), Some(Ok(()))));
    assert!(!state.on_drop());
}

#[test]
fn a_reset_of_the_peer_fails_reads() {
    let mut state: RecvState<u8> = RecvState::new(0);
    assert!(state.poll_read_chunk(&5, 10).is_none());
    let _step = state.flush();
    let step = state.on_recv::<Failure>(false, RecvReply::Reset(9)).unwrap();
    assert!(matches!(step, RecvStep::Done(Some(5))));
    assert!(matches!(state.poll_read_chunk(&5, 10), Some(Err(StreamError::Reset(9)))));
    assert!(matches!(state.poll_closed(&5), Some(Err(StreamError::Reset(9)))));
    assert!(matches!(state.flush(), RecvStep::Done(None)));

    let mut state: RecvState<u8> = RecvState::new(0);
    assert!(state.poll_read_chunk(&5, 10).is_none());
    let _step = state.flush();
    assert!(matches!(state.on_recv(false, RecvReply::Failed("down")), Err("down")));
    let step = state.on_recv::<Failure>(false, RecvReply::Blocked { finished: true }).unwrap();
    assert!(matches!(step, RecvStep::Done(Some(5))));
    let mut connection = ConnectionClosed::new();
    assert!(matches!(state.poll_read(&mut connection, &5, 10), Some(Ok(None))));
}

#[test]
fn reading_it_all_stops_at_the_limit() {
    let mut all = ReadAll::new(6);
    assert_eq!(all.wanted(), Some(6));
    all.on_chunk(Some(Bytes::from_static(b"abcd")));
    assert_eq!(all.wanted(), Some(2));
    all.on_chunk(Some(Bytes::from_static(b"ef")));
    assert_eq!(all.wanted(), None);
    assert_eq!(&all.into_bytes()[..], b"abcdef");
    let mut all = ReadAll::new(6);
    all.on_chunk(None);
    assert_eq!(all.wanted(), None);
}

#[test]
fn the_first_error_of_a_connection_stays() {
    let mut closed = ConnectionClosed::new();
    assert_eq!(closed.on_drop(), Some((0x52E50ACE926F, "connection dropped")));
    assert!(closed.poll(&1).is_none());
    assert!(closed.poll(&2).is_none());
    assert!(!closed.is_closed());
    assert_eq!(closed.abort(ConnectionError::Local(3, "bye".to_string())), vec![1, 2]);
    assert!(closed.abort(ConnectionError::Dropped).is_empty());
    assert!(closed.is_closed());
    assert!(matches!(closed.poll(&3), Some(ConnectionError::Local(3, r)) if r == "bye"));
    assert_eq!(closed.on_drop(), None);
}

#[test]
fn statistics_are_in_bits() {
    let stats = TransportStats {
        sent_bytes: 1,
        recv_bytes: 2,
        lost_bytes: 3,
        sent: 4,
        recv: 5,
        lost: 6,
    };
    let path = PathStats {
        rtt: Duration::from_millis(20),
        delivery_rate: 1000,
    };
    let s = ConnectionStats::from_quiche(stats, Some(path));
    assert_eq!((s.bytes_sent, s.bytes_received, s.bytes_lost), (1, 2, 3));
    assert_eq!((s.packets_sent, s.packets_received, s.packets_lost), (4, 5, 6));
    assert_eq!(s.rtt, Some(Duration::from_millis(20)));
    assert_eq!(s.send_rate, Some(8000));
    let fast = PathStats {
        delivery_rate: u64::MAX,
        ..path
    };
    assert_eq!(ConnectionStats::from_quiche(stats, Some(fast)).send_rate, Some(u64::MAX));
    assert_eq!(ConnectionStats::from_quiche(stats, None).send_rate, None);
}

/// A datagram without room is dropped, and that is no error.
#[test]
fn datagram_send_drops_when_channel_full() {
    assert!(matches!(send_datagram(DatagramQueued::Full), Ok(false)));
    assert!(matches!(send_datagram(DatagramQueued::Sent), Ok(true)));
    assert!(matches!(
        send_datagram(DatagramQueued::Disconnected),
        Err(ConnectionError::Dropped)
    ));
    assert_eq!(max_datagram_size(0), None);
    assert_eq!(max_datagram_size(1200), Some(1200));
    let headers = SessionHeaders::new(VarInt::from_u32(4));
    assert_eq!(session_datagram_size(&headers, Some(1200)), 1199);
    assert_eq!(session_datagram_size(&headers, None), 0);
}

#[test]
fn datagram_round_trip() {
    let client = SessionHeaders::new(VarInt::from_u32(0));
    let server = SessionHeaders::new(VarInt::from_u32(0));
    for payload in [&b"hello"[..], b"quic-datagrams", b"round-trip"] {
        let sent = client.send_datagram(Bytes::from_static(payload));
        let seen = server.read_datagram(sent).unwrap();
        let echoed = server.send_datagram(seen);
        assert_eq!(client.read_datagram(echoed).unwrap(), payload);
    }
}

#[test]
fn capsules_close_the_session() {
    let close = Capsule::CloseWebTransportSession {
        code: 4,
        reason: "bye".to_string(),
    };
    assert!(matches!(on_capsule(close), CapsuleStep::Close { code: 4, reason } if reason == "bye"));
    assert!(matches!(on_capsule(Capsule::Grease), CapsuleStep::Continue));
    assert!(matches!(on_capsule(Capsule::Unknown { typ: 9, size: 1 }), CapsuleStep::Continue));
    assert!(matches!(on_capsule(Capsule::End), CapsuleStep::Stop));
    assert!(matches!(
        on_capsule(Capsule::Failed),
        CapsuleStep::Close { code: 500, reason } if reason == "capsule error"
    ));
}

#[test]
fn a_client_is_built() {
    let builder: ClientBuilder<u8, u8, u8> = ClientBuilder::with_metrics(1, 2);
    assert_eq!(
        builder.plan(),
        ConnectPlan {
            bind: true,
            insecure: false,
            needs_hook: false
        }
    );
    let builder = builder.with_socket(3).with_settings(Settings {
        verify_peer: false,
        transport: 4,
    });
    assert_eq!(
        builder.plan(),
        ConnectPlan {
            bind: false,
            insecure: true,
            needs_hook: false
        }
    );
    let builder = builder
        .with_root_certificates(vec![vec![1]])
        .with_server_certificate_hashes(vec![[0; 32]]);
    assert!(matches!(&builder.verify, ClientVerify::Hashes(h) if h.len() == 1));
    assert!(!builder.plan().insecure && builder.plan().needs_hook);
    let builder: ClientBuilder<u8, u8, u8> =
        ClientBuilder::with_metrics(1, 2).with_single_cert(vec![vec![1]], vec![2]);
    assert!(builder.plan().needs_hook);
}

#[test]
fn a_client_finds_its_server() {
    assert_eq!(first_remote(Ok(vec![1, 2])), Ok(1));
    let none: Result<Vec<u8>, String> = Ok(vec![]);
    assert_eq!(first_remote(none), Err("no addresses found for host".to_string()));
    let failed: Result<Vec<u8>, String> = Err("no".to_string());
    assert_eq!(first_remote(failed), Err("no".to_string()));
    let target = |text| request_target(&ParsedUrl::parse(text).unwrap());
    assert!(matches!(target("https://[::1]:9/"), Ok((h, 9)) if h == "[::1]"));
    assert!(matches!(target("https://localhost/"), Ok((h, 443)) if h == "localhost"));
    assert!(matches!(target("data:x"), Err(ClientError::InvalidUrl(u)) if u == "data:x"));
}
