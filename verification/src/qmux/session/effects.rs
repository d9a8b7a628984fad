//! What each frame and each use of a session brings about: when it is accepted,
//! what it changes and what it leaves alone.
//!
//! Streams are told apart by the two low bits of their identifiers: the lower one
//! is set for those of the server, the other one for unidirectional ones.

use bytes::Bytes;
use vstd::prelude::*;

use super::idle::window_nanos;
use super::model::{
    EventView, RecvView, SendView, SessionView, after_refusal, conn_update, on_claim, on_close,
    on_consumed, on_frame, on_open, on_params, on_recv_dropped, on_release, send_dropped, start,
    stream_update, streams_update, torn_down,
};
use super::outbound::{NextView, OutboundView, retiring, shed, taken, transmitted};
use super::recv::read_len;
use super::send::{
    SendStreamView, WriteOutcome, WriteStep, on_stop, piece_result, with_piece, write_outcome,
};
use super::start::{advertised, names_first_invalid, received_form};
use crate::buffer::contents;
use crate::qmux::config::ProtocolView;
use crate::qmux::credit::CreditView;
use crate::qmux::error::{Error, ErrorView};
use crate::qmux::negotiate::agreed;
use crate::qmux::proto::MAX_FRAME_PAYLOAD;
use crate::qmux::proto::frame::{FrameView, qmux_encoding, wt_encoding};
use crate::qmux::proto::params::ParamsView;
use crate::qmux::proto::version::Version;
use crate::qmux::protocol::is_token;
use crate::qmux::sched::{
    QueueView, lanes_wf, lemma_pop_in_order, lemma_push_keeps_order, next_lane, queued, total,
};
use crate::qmux::stream::StreamDir;

verus! {

/// Law: a session of the QMux versions starts with nothing to send or open, which
/// the peer grants, and lets the peer send and open what we advertise. The legacy
/// format has no limits and no handshake.
pub proof fn lemma_start(
    is_server: bool,
    version: Version,
    protocol: ProtocolView,
    ours: ParamsView,
)
    ensures
        ({
            let s = start(is_server, version, protocol, ours);
            let nothing = CreditView { used: 0, max: 0, window: 0, consumed: 0, closed: false };
            let any = CreditView { max: u64::MAX, window: u64::MAX, ..nothing };
            let data = ours.initial_max_data;
            let bi = ours.initial_max_streams_bidi;
            let uni = ours.initial_max_streams_uni;
            let legacy = version is WebTransport;
            &&& s.is_server == is_server && s.version == version && s.ours == ours
            &&& s.protocol == protocol
            &&& s.conn_send == if legacy { any } else { nothing }
            &&& s.open_bi == if legacy { any } else { nothing }
            &&& s.open_uni == if legacy { any } else { nothing }
            &&& s.conn_recv == if legacy {
                any
            } else {
                CreditView { max: data, window: data, ..nothing }
            }
            &&& s.recv_bi == if legacy {
                any
            } else {
                CreditView { max: bi, window: bi, ..nothing }
            }
            &&& s.recv_uni == if legacy {
                any
            } else {
                CreditView { max: uni, window: uni, ..nothing }
            }
            &&& s.send == Map::<u64, SendView>::empty()
            &&& s.recv == Map::<u64, RecvView>::empty()
            &&& s.opened_bi == Set::<u64>::empty()
            &&& s.opened_uni == Set::<u64>::empty()
            &&& s.established == legacy
            &&& !s.params_received
            &&& s.closed is None
            &&& s.datagram_max_size == 0
            &&& s.idle_timeout_ms == 0
            &&& s.record_limit == 16382
            &&& s.peer.initial_max_stream_data_uni == 0
            &&& s.peer.initial_max_stream_data_bidi_remote == 0
            &&& s.peer.initial_max_stream_data_bidi_local == 0
            &&& match protocol {
                ProtocolView::Negotiate(_) => s.negotiated is None,
                ProtocolView::Negotiated(name) => s.negotiated == Some(Some(name)),
                ProtocolView::NoProtocol => s.negotiated == Some(None::<Seq<char>>),
            }
        }),
{
}

/// Law: the peer's parameters are accepted where they are the first and name
/// protocols only to a session that negotiates. They become the limits on what we
/// send and open, unless we were granted more, and establish the session.
pub proof fn lemma_params_taken(s: SessionView, p: ParamsView)
    ensures
        s.params_received ==> on_frame(s, FrameView::TransportParameters(p)) == Err::<
            (SessionView, EventView),
            _,
        >(ErrorView::FlowControlError),
        !s.params_received && p.protocols.len() > 0 && !(s.protocol is Negotiate) ==> on_frame(
            s,
            FrameView::TransportParameters(p),
        ) == Err::<(SessionView, EventView), _>(ErrorView::UnexpectedProtocols),
        !s.params_received && (p.protocols.len() == 0 || s.protocol is Negotiate) ==> {
            &&& on_frame(s, FrameView::TransportParameters(p)) matches Ok((t, e))
            &&& on_params(s, p) == Ok::<_, ErrorView>((t, e))
            &&& e == EventView::Established
            &&& t.established && t.params_received
            &&& t.peer == p
            &&& t.conn_send == (CreditView {
                max: if p.initial_max_data >= s.conn_send.max {
                    p.initial_max_data
                } else {
                    s.conn_send.max
                },
                ..s.conn_send
            })
            &&& t.open_bi == (CreditView {
                max: if p.initial_max_streams_bidi >= s.open_bi.max {
                    p.initial_max_streams_bidi
                } else {
                    s.open_bi.max
                },
                ..s.open_bi
            })
            &&& t.open_uni == (CreditView {
                max: if p.initial_max_streams_uni >= s.open_uni.max {
                    p.initial_max_streams_uni
                } else {
                    s.open_uni.max
                },
                ..s.open_uni
            })
            &&& s.version is QMux01 ==> t.record_limit == p.max_record_size
            &&& !(s.version is QMux01) ==> t.record_limit == s.record_limit
            &&& match s.protocol {
                ProtocolView::Negotiate(list) => t.negotiated == Some(
                    agreed(s.is_server, list, p.protocols),
                ),
                _ => t.negotiated == s.negotiated,
            }
            &&& t == (SessionView {
                established: t.established,
                params_received: t.params_received,
                peer: t.peer,
                conn_send: t.conn_send,
                open_bi: t.open_bi,
                open_uni: t.open_uni,
                send: t.send,
                record_limit: t.record_limit,
                idle_timeout_ms: t.idle_timeout_ms,
                datagram_max_size: t.datagram_max_size,
                negotiated: t.negotiated,
                ..s
            })
        },
{
}

/// Law: after the handshake of a session that was just started, everything that
/// limits what we send is what the peer advertised, and so is how many streams of
/// each direction we can open.
pub proof fn lemma_handshake_gives_limits(
    is_server: bool,
    version: Version,
    protocol: ProtocolView,
    ours: ParamsView,
    p: ParamsView,
    dir: StreamDir,
)
    requires
        !(version is WebTransport),
        p.protocols.len() == 0 || protocol is Negotiate,
    ensures
        ({
            let s = start(is_server, version, protocol, ours);
            &&& on_frame(s, FrameView::TransportParameters(p)) matches Ok((t, _))
            &&& t.conn_send.max == p.initial_max_data && t.conn_send.used == 0
            &&& t.open_bi.max == p.initial_max_streams_bidi && t.open_bi.used == 0
            &&& t.open_uni.max == p.initial_max_streams_uni && t.open_uni.used == 0
            &&& (on_open(t, dir) matches Ok(Some(_))) == ((if dir is Bi {
                p.initial_max_streams_bidi
            } else {
                p.initial_max_streams_uni
            }) > 0)
        }),
{
}

/// Law: the effective idle timeout and the largest datagram follow from what both
/// sides advertise. Both are of draft-01.
pub proof fn lemma_params_timeouts_and_datagrams(s: SessionView, p: ParamsView)
    requires
        !s.params_received,
        p.protocols.len() == 0 || s.protocol is Negotiate,
    ensures
        ({
            let ours = s.ours.max_idle_timeout;
            let peer = p.max_idle_timeout;
            let cap = if p.max_datagram_frame_size <= p.max_record_size {
                p.max_datagram_frame_size
            } else {
                p.max_record_size
            };
            let prefix: int = if cap < 64 {
                1
            } else if cap < 16384 {
                2
            } else if cap < 0x4000_0000 {
                4
            } else {
                8
            };
            &&& on_params(s, p) matches Ok((t, _))
            &&& s.version is QMux01 ==> {
                &&& ours == 0 ==> t.idle_timeout_ms == peer
                &&& peer == 0 ==> t.idle_timeout_ms == ours
                &&& ours != 0 && peer != 0 ==> {
                    &&& t.idle_timeout_ms <= ours && t.idle_timeout_ms <= peer
                    &&& t.idle_timeout_ms == ours || t.idle_timeout_ms == peer
                }
                &&& p.max_datagram_frame_size == 0 ==> t.datagram_max_size == 0
                &&& p.max_datagram_frame_size > 0 && cap > prefix && cap <= usize::MAX
                    ==> t.datagram_max_size == cap - 1 - prefix
                &&& p.max_datagram_frame_size > 0 && cap <= prefix ==> t.datagram_max_size == 0
            }
            &&& !(s.version is QMux01) ==> t.idle_timeout_ms == 0 && t.datagram_max_size == 0
        }),
{
}

/// Law: the streams that are open when the peer's parameters arrive get the window
/// that those give to streams of their kind, unless they were granted more. Those
/// that are over, and those without flow control, are left alone.
pub proof fn lemma_params_credit_streams(s: SessionView, p: ParamsView, id: u64)
    requires
        !s.params_received,
        p.protocols.len() == 0 || s.protocol is Negotiate,
    ensures
        ({
            let window = if id % 4 >= 2 {
                p.initial_max_stream_data_uni
            } else if (id % 2 == 1) == s.is_server {
                p.initial_max_stream_data_bidi_remote
            } else {
                p.initial_max_stream_data_bidi_local
            };
            &&& on_params(s, p) matches Ok((t, _))
            &&& t.send.contains_key(id) == s.send.contains_key(id)
            &&& t.recv == s.recv
            &&& s.send.contains_key(id) ==> if s.send[id].live && s.send[id].credit is Some {
                let c = s.send[id].credit->0;
                t.send[id] == (SendView {
                    credit: Some(
                        CreditView {
                            max: if window >= c.max {
                                window
                            } else {
                                c.max
                            },
                            ..c
                        },
                    ),
                    ..s.send[id]
                })
            } else {
                t.send[id] == s.send[id]
            }
        }),
{
}

/// Law: a stream can be opened exactly while the peer allows one more. It gets the
/// next identifier of its kind, can be sent on with the window of the peer for it,
/// and where it goes both ways received on with the one that we advertise.
pub proof fn lemma_open(s: SessionView, dir: StreamDir)
    ensures
        ({
            let c = if dir is Bi {
                s.open_bi
            } else {
                s.open_uni
            };
            let kind: int = (if dir is Uni {
                2int
            } else {
                0int
            }) + (if s.is_server {
                1int
            } else {
                0int
            });
            let legacy = s.version is WebTransport;
            &&& c.closed ==> on_open(s, dir) == Err::<Option<(SessionView, u64)>, _>(
                ErrorView::Closed,
            )
            &&& !c.closed && c.used == c.max ==> on_open(s, dir) == Ok::<_, ErrorView>(
                None::<(SessionView, u64)>,
            )
            &&& !c.closed && c.used < c.max && c.used >= 0x1000_0000_0000_0000 ==> on_open(s, dir)
                == Err::<Option<(SessionView, u64)>, _>(ErrorView::StreamLimitExceeded)
            &&& !c.closed && c.used < c.max && c.used < 0x1000_0000_0000_0000 ==> {
                &&& on_open(s, dir) matches Ok(Some((t, id)))
                &&& id == 4 * c.used + kind
                &&& t.open_bi == if dir is Bi {
                    CreditView { used: (c.used + 1) as u64, ..c }
                } else {
                    s.open_bi
                }
                &&& t.open_uni == if dir is Uni {
                    CreditView { used: (c.used + 1) as u64, ..c }
                } else {
                    s.open_uni
                }
                &&& t.send.contains_key(id) && t.send[id].live && t.send[id].held
                &&& legacy ==> t.send[id].credit is None
                &&& !legacy ==> {
                    &&& t.send[id].credit matches Some(w)
                    &&& w.used == 0 && !w.closed
                    &&& w.max == if dir is Bi {
                        s.peer.initial_max_stream_data_bidi_remote
                    } else {
                        s.peer.initial_max_stream_data_uni
                    }
                }
                &&& t.send.remove(id) =~= s.send.remove(id)
                &&& dir is Uni ==> t.recv == s.recv
                &&& dir is Bi ==> {
                    let w = if legacy {
                        u64::MAX
                    } else {
                        s.ours.initial_max_stream_data_bidi_local
                    };
                    &&& t.recv.contains_key(id)
                    &&& t.recv[id] == (RecvView {
                        credit: CreditView {
                            used: 0,
                            max: w,
                            window: w,
                            consumed: 0,
                            closed: false,
                        },
                        live: true,
                        held: true,
                    })
                    &&& t.recv.remove(id) =~= s.recv.remove(id)
                }
                &&& t == (SessionView {
                    open_bi: t.open_bi,
                    open_uni: t.open_uni,
                    send: t.send,
                    recv: t.recv,
                    ..s
                })
            }
        }),
{
}

/// Law: credit is claimed of the stream and of the connection alike, as much as is
/// asked for and both have left. There is none only where one of them has nothing
/// left, and then it is waited for unless the session was torn down.
pub proof fn lemma_claim_exact(s: SessionView, id: u64, desired: u64)
    requires
        desired > 0,
        s.conn_send.used <= s.conn_send.max,
        s.send.contains_key(id) ==> (s.send[id].credit matches Some(c) ==> c.used <= c.max),
    ensures
        !s.send.contains_key(id) ==> on_claim(s, id, desired) == Err::<
            Option<(SessionView, u64)>,
            _,
        >(ErrorView::Closed),
        s.send.contains_key(id) && s.send[id].credit is None ==> on_claim(s, id, desired)
            == Ok::<_, ErrorView>(Some((s, desired))),
        s.send.contains_key(id) ==> (s.send[id].credit matches Some(c) ==> {
            let left = c.max - c.used;
            let conn_left = s.conn_send.max - s.conn_send.used;
            &&& left > 0 && conn_left > 0 ==> {
                &&& on_claim(s, id, desired) matches Ok(Some((t, n)))
                &&& n <= desired && n <= left && n <= conn_left
                &&& n == desired || n == left || n == conn_left
                &&& t.conn_send == (CreditView {
                    used: (s.conn_send.used + n) as u64,
                    ..s.conn_send
                })
                &&& t.send == s.send.insert(
                    id,
                    SendView {
                        credit: Some(CreditView { used: (c.used + n) as u64, ..c }),
                        ..s.send[id]
                    },
                )
                &&& t == (SessionView { conn_send: t.conn_send, send: t.send, ..s })
            }
            &&& left == 0 ==> on_claim(s, id, desired) == if c.closed {
                Err(ErrorView::Closed)
            } else {
                Ok(None::<(SessionView, u64)>)
            }
            &&& left > 0 && conn_left == 0 ==> on_claim(s, id, desired) == if s.conn_send.closed {
                Err(ErrorView::Closed)
            } else {
                Ok(None::<(SessionView, u64)>)
            }
        }),
{
}

/// Law: credit that is released is there again, for the stream and the connection.
pub proof fn lemma_release_exact(s: SessionView, id: u64, n: u64)
    ensures
        ({
            let t = on_release(s, id, n);
            &&& t == (SessionView { conn_send: t.conn_send, send: t.send, ..s })
            &&& s.send.contains_key(id) && s.send[id].credit is Some && n <= s.conn_send.used && n
                <= s.send[id].credit->0.used ==> {
                let c = s.send[id].credit->0;
                &&& t.conn_send == (CreditView {
                    used: (s.conn_send.used - n) as u64,
                    ..s.conn_send
                })
                &&& t.send == s.send.insert(
                    id,
                    SendView {
                        credit: Some(CreditView { used: (c.used - n) as u64, ..c }),
                        ..s.send[id]
                    },
                )
            }
            &&& !s.send.contains_key(id) || s.send[id].credit is None ==> t == s
        }),
{
}

/// Law: MAX_DATA sets the limit on what the connection sends, and what is in use
/// stays. One below the limit is refused.
pub proof fn lemma_max_data(s: SessionView, max: u64)
    ensures
        max < s.conn_send.max ==> on_frame(s, FrameView::MaxData(max)) == Err::<
            (SessionView, EventView),
            _,
        >(ErrorView::FlowControlError),
        max >= s.conn_send.max ==> on_frame(s, FrameView::MaxData(max)) == Ok::<_, ErrorView>(
            (
                SessionView { conn_send: CreditView { max, ..s.conn_send }, ..s },
                EventView::Nothing,
            ),
        ),
{
}

/// Law: MAX_STREAMS sets how many streams of its direction we may open. One below
/// the limit is refused.
pub proof fn lemma_max_streams(s: SessionView, max: u64)
    ensures
        max < s.open_bi.max ==> on_frame(s, FrameView::MaxStreamsBidi(max)) == Err::<
            (SessionView, EventView),
            _,
        >(ErrorView::FlowControlError),
        max >= s.open_bi.max ==> on_frame(s, FrameView::MaxStreamsBidi(max)) == Ok::<_, ErrorView>(
            (SessionView { open_bi: CreditView { max, ..s.open_bi }, ..s }, EventView::Nothing),
        ),
        max < s.open_uni.max ==> on_frame(s, FrameView::MaxStreamsUni(max)) == Err::<
            (SessionView, EventView),
            _,
        >(ErrorView::FlowControlError),
        max >= s.open_uni.max ==> on_frame(s, FrameView::MaxStreamsUni(max)) == Ok::<_, ErrorView>(
            (SessionView { open_uni: CreditView { max, ..s.open_uni }, ..s }, EventView::Nothing),
        ),
{
}

/// Law: MAX_STREAM_DATA sets the limit on what an open stream sends. One below the
/// limit is refused. For a stream that is over or not known it is ignored.
pub proof fn lemma_max_stream_data(s: SessionView, id: u64, max: u64)
    ensures
        ({
            let f = FrameView::MaxStreamData { id, max };
            if s.send.contains_key(id) && s.send[id].live && s.send[id].credit is Some {
                let c = s.send[id].credit->0;
                &&& max < c.max ==> on_frame(s, f) == Err::<(SessionView, EventView), _>(
                    ErrorView::FlowControlError,
                )
                &&& max >= c.max ==> on_frame(s, f) == Ok::<_, ErrorView>(
                    (
                        SessionView {
                            send: s.send.insert(
                                id,
                                SendView { credit: Some(CreditView { max, ..c }), ..s.send[id] },
                            ),
                            ..s
                        },
                        EventView::Nothing,
                    ),
                )
            } else {
                on_frame(s, f) == Ok::<_, ErrorView>((s, EventView::Nothing))
            }
        }),
{
}

/// Law: frames that only inform, and padding, change nothing.
pub proof fn lemma_informing_frames(s: SessionView, f: FrameView)
    requires
        f is Padding || f is DataBlocked || f is StreamDataBlocked || f is StreamsBlockedBidi
            || f is StreamsBlockedUni,
    ensures
        on_frame(s, f) == Ok::<_, ErrorView>((s, EventView::Nothing)),
{
}

/// Law: data for a stream that is received on is handed to it where its window and
/// that of the connection have room, and is counted against both. Where one of them
/// has not, it is refused.
pub proof fn lemma_known_stream(s: SessionView, id: u64, data: Seq<u8>, fin: bool)
    requires
        s.recv.contains_key(id),
        s.recv[id].live,
        data.len() <= MAX_FRAME_PAYLOAD,
        id % 4 < 2 || (id % 2 == 1) != s.is_server,
    ensures
        ({
            let f = FrameView::Stream { id, data, fin };
            let c = s.recv[id].credit;
            let room = s.conn_recv.used + data.len() <= s.conn_recv.max && c.used + data.len()
                <= c.max;
            &&& !room ==> on_frame(s, f) == Err::<(SessionView, EventView), _>(
                ErrorView::FlowControlError,
            )
            &&& room ==> {
                &&& on_frame(s, f) matches Ok((t, e))
                &&& e == (EventView::Deliver { id, data, fin })
                &&& t.conn_recv == (CreditView {
                    used: (s.conn_recv.used + data.len()) as u64,
                    ..s.conn_recv
                })
                &&& !fin || s.recv[id].held ==> {
                    &&& t.recv.contains_key(id)
                    &&& t.recv[id] == (RecvView {
                        credit: CreditView { used: (c.used + data.len()) as u64, ..c },
                        live: !fin,
                        held: s.recv[id].held,
                    })
                }
                &&& fin && !s.recv[id].held ==> !t.recv.contains_key(id)
                &&& t.recv.remove(id) =~= s.recv.remove(id)
                &&& t == (SessionView { conn_recv: t.conn_recv, recv: t.recv, ..s })
            }
        }),
{
}

/// Law: the first data on a stream of the peer opens it where the peer may open so
/// many and the windows have room. It can be received on from then on with the
/// window that we advertise, and where it goes both ways sent on with the one that
/// the peer advertises for streams of its own.
pub proof fn lemma_new_stream(s: SessionView, id: u64, data: Seq<u8>, fin: bool)
    requires
        !(s.recv.contains_key(id) && s.recv[id].live),
        data.len() <= MAX_FRAME_PAYLOAD,
        (id % 2 == 1) != s.is_server,
        s.version is WebTransport || !(if id % 4 < 2 {
            s.opened_bi
        } else {
            s.opened_uni
        }).contains(id / 4),
    ensures
        ({
            let f = FrameView::Stream { id, data, fin };
            let legacy = s.version is WebTransport;
            let bi = id % 4 < 2;
            let limit = if bi {
                s.recv_bi
            } else {
                s.recv_uni
            };
            let window = if legacy {
                u64::MAX
            } else if bi {
                s.ours.initial_max_stream_data_bidi_remote
            } else {
                s.ours.initial_max_stream_data_uni
            };
            let conn_room = s.conn_recv.used + data.len() <= s.conn_recv.max;
            let allowed = legacy || id / 4 + 1 <= limit.max;
            let counted = CreditView {
                used: if id / 4 + 1 > limit.used {
                    (id / 4 + 1) as u64
                } else {
                    limit.used
                },
                ..limit
            };
            &&& !conn_room ==> on_frame(s, f) == Err::<(SessionView, EventView), _>(
                ErrorView::FlowControlError,
            )
            &&& conn_room && !allowed ==> on_frame(s, f) == Err::<(SessionView, EventView), _>(
                ErrorView::StreamLimitExceeded,
            )
            &&& conn_room && allowed && data.len() > window ==> on_frame(s, f) == Err::<
                (SessionView, EventView),
                _,
            >(ErrorView::FlowControlError)
            &&& conn_room && allowed && data.len() <= window ==> {
                &&& on_frame(s, f) matches Ok((t, e))
                &&& e == (EventView::Accept { id, data, fin })
                &&& t.conn_recv == (CreditView {
                    used: (s.conn_recv.used + data.len()) as u64,
                    ..s.conn_recv
                })
                &&& t.recv == s.recv.insert(
                    id,
                    RecvView {
                        credit: CreditView {
                            used: data.len() as u64,
                            max: window,
                            window,
                            consumed: 0,
                            closed: false,
                        },
                        live: !fin,
                        held: true,
                    },
                )
                &&& !bi ==> t.send == s.send
                &&& bi ==> t.send == s.send.insert(
                    id,
                    SendView {
                        credit: if legacy {
                            None
                        } else {
                            Some(
                                CreditView {
                                    used: 0,
                                    max: s.peer.initial_max_stream_data_bidi_local,
                                    window: s.peer.initial_max_stream_data_bidi_local,
                                    consumed: 0,
                                    closed: false,
                                },
                            )
                        },
                        live: true,
                        held: true,
                    },
                )
                &&& t.opened_bi == if bi && !legacy {
                    s.opened_bi.insert(id / 4)
                } else {
                    s.opened_bi
                }
                &&& t.opened_uni == if !bi && !legacy {
                    s.opened_uni.insert(id / 4)
                } else {
                    s.opened_uni
                }
                &&& t.recv_bi == if bi && !legacy {
                    counted
                } else {
                    s.recv_bi
                }
                &&& t.recv_uni == if !bi && !legacy {
                    counted
                } else {
                    s.recv_uni
                }
                &&& t == (SessionView {
                    conn_recv: t.conn_recv,
                    recv: t.recv,
                    send: t.send,
                    opened_bi: t.opened_bi,
                    opened_uni: t.opened_uni,
                    recv_bi: t.recv_bi,
                    recv_uni: t.recv_uni,
                    ..s
                })
            }
        }),
{
}

/// Law: stream data that is too long, on a stream that only we send on, or for a
/// stream of the peer that is over has no effect: the first two are refused. Data
/// for a stream of ours that is over counts against the connection alone.
pub proof fn lemma_other_stream_data(s: SessionView, id: u64, data: Seq<u8>, fin: bool)
    ensures
        ({
            let f = FrameView::Stream { id, data, fin };
            let ours = (id % 2 == 1) == s.is_server;
            let open = s.recv.contains_key(id) && s.recv[id].live;
            let opened = if id % 4 < 2 {
                s.opened_bi
            } else {
                s.opened_uni
            };
            let small = data.len() <= MAX_FRAME_PAYLOAD;
            &&& !small ==> on_frame(s, f) == Err::<(SessionView, EventView), _>(
                ErrorView::FrameTooLarge,
            )
            &&& small && id % 4 >= 2 && ours ==> on_frame(s, f) == Err::<
                (SessionView, EventView),
                _,
            >(ErrorView::InvalidStreamId)
            &&& small && !ours && !open && !(s.version is WebTransport) && opened.contains(id / 4)
                ==> on_frame(s, f) == Ok::<_, ErrorView>((s, EventView::Nothing))
            &&& small && ours && id % 4 < 2 && !open ==> on_frame(s, f) == if s.conn_recv.used
                + data.len() <= s.conn_recv.max {
                Ok(
                    (
                        SessionView {
                            conn_recv: CreditView {
                                used: (s.conn_recv.used + data.len()) as u64,
                                ..s.conn_recv
                            },
                            ..s
                        },
                        EventView::Nothing,
                    ),
                )
            } else {
                Err(ErrorView::FlowControlError)
            }
        }),
{
}

/// Law: a stream that is received on is told that the peer reset it, with the code
/// and the final size, and ends.
pub proof fn lemma_reset_told(s: SessionView, id: u64, code: u64, final_size: u64)
    requires
        s.recv.contains_key(id),
        s.recv[id].live,
        id % 4 < 2 || (id % 2 == 1) != s.is_server,
    ensures
        on_frame(s, FrameView::ResetStream { id, code, final_size }) matches Ok((t, e)) && {
            &&& e == (EventView::Reset { id, code, final_size })
            &&& s.recv[id].held ==> t.recv == s.recv.insert(
                id,
                RecvView { live: false, ..s.recv[id] },
            )
            &&& !s.recv[id].held ==> t.recv == s.recv.remove(id)
            &&& t == (SessionView { recv: t.recv, ..s })
        },
{
}

/// Law: a reset that finds nobody who receives is ignored, but for a stream of the
/// peer it counts as opening it. It is refused where the peer may not open so many,
/// or only we send on the stream.
pub proof fn lemma_reset_of_others(s: SessionView, id: u64, code: u64, final_size: u64)
    requires
        !(s.recv.contains_key(id) && s.recv[id].live),
    ensures
        ({
            let f = FrameView::ResetStream { id, code, final_size };
            let ours = (id % 2 == 1) == s.is_server;
            let bi = id % 4 < 2;
            let limit = if bi {
                s.recv_bi
            } else {
                s.recv_uni
            };
            let counted = CreditView {
                used: if id / 4 + 1 > limit.used {
                    (id / 4 + 1) as u64
                } else {
                    limit.used
                },
                ..limit
            };
            if !bi && ours {
                on_frame(s, f) == Err::<(SessionView, EventView), _>(ErrorView::InvalidStreamId)
            } else if ours || s.version is WebTransport {
                on_frame(s, f) == Ok::<_, ErrorView>((s, EventView::Nothing))
            } else if id / 4 + 1 > limit.max {
                on_frame(s, f) == Err::<(SessionView, EventView), _>(ErrorView::StreamLimitExceeded)
            } else if bi {
                on_frame(s, f) == Ok::<_, ErrorView>(
                    (
                        SessionView {
                            recv_bi: counted,
                            opened_bi: s.opened_bi.insert(id / 4),
                            ..s
                        },
                        EventView::Nothing,
                    ),
                )
            } else {
                on_frame(s, f) == Ok::<_, ErrorView>(
                    (
                        SessionView {
                            recv_uni: counted,
                            opened_uni: s.opened_uni.insert(id / 4),
                            ..s
                        },
                        EventView::Nothing,
                    ),
                )
            }
        }),
{
}

/// Law: an invalid reset of a stream that only we send on is refused in every
/// state.
pub proof fn lemma_reset_of_ours(s: SessionView, id: u64, code: u64, final_size: u64)
    requires
        id % 4 >= 2,
        (id % 2 == 1) == s.is_server,
    ensures
        on_frame(s, FrameView::ResetStream { id, code, final_size }) == Err::<
            (SessionView, EventView),
            _,
        >(ErrorView::InvalidStreamId),
{
}

/// Law: a STOP_SENDING is handed to the sending side that it is for, with its code,
/// while that is open. Otherwise it is ignored, and on a stream that only the peer
/// sends on it is refused. The session stays as it is.
pub proof fn lemma_stop_told(s: SessionView, id: u64, code: u64)
    ensures
        ({
            let f = FrameView::StopSending { id, code };
            if id % 4 >= 2 && (id % 2 == 1) != s.is_server {
                on_frame(s, f) == Err::<(SessionView, EventView), _>(ErrorView::InvalidStreamId)
            } else if s.send.contains_key(id) && s.send[id].live {
                on_frame(s, f) == Ok::<_, ErrorView>((s, EventView::Stop { id, code }))
            } else {
                on_frame(s, f) == Ok::<_, ErrorView>((s, EventView::Nothing))
            }
        }),
{
}

/// Law: when the peer closes the connection, its code and reason become the reason
/// of the session, and nothing else changes.
pub proof fn lemma_peer_close(s: SessionView, code: u64, reason: Seq<char>)
    ensures
        on_frame(s, FrameView::ConnectionClose { code, reason }) == Ok::<_, ErrorView>(
            (
                SessionView { closed: Some(ErrorView::ConnectionClosed { code, reason }), ..s },
                EventView::Close,
            ),
        ),
{
}

/// Law: a datagram is handed out where we advertised that we take datagrams and its
/// whole frame is within the size that we advertised. Otherwise it is refused. The
/// session stays as it is.
pub proof fn lemma_datagram_taken(s: SessionView, data: Seq<u8>, length_prefixed: bool)
    requires
        data.len() < 0x4000_0000_0000_0000,
    ensures
        ({
            let f = FrameView::Datagram { data, length_prefixed };
            let n = data.len() as int;
            let size = 1 + n + (if !length_prefixed {
                0int
            } else if n < 64 {
                1int
            } else if n < 16384 {
                2int
            } else if n < 0x4000_0000 {
                4int
            } else {
                8int
            });
            if s.ours.max_datagram_frame_size == 0 {
                on_frame(s, f) == Err::<(SessionView, EventView), _>(
                    ErrorView::DatagramsUnsupported,
                )
            } else if size > s.ours.max_datagram_frame_size {
                on_frame(s, f) == Err::<(SessionView, EventView), _>(ErrorView::FrameTooLarge)
            } else {
                on_frame(s, f) == Ok::<_, ErrorView>((s, EventView::Datagram { data }))
            }
        }),
{
}

/// Law: reading counts as consumed, for the stream and the connection. Where the
/// limit then lags behind the whole window by at least half of it, it is raised and
/// the peer is told the same limit. Otherwise it stays.
pub proof fn lemma_consumed(s: SessionView, id: u64, len: u64)
    requires
        !(s.version is WebTransport),
        s.conn_recv.consumed + len + s.conn_recv.window <= u64::MAX,
        s.recv.contains_key(id) ==> s.recv[id].credit.consumed + len + s.recv[id].credit.window
            <= u64::MAX,
    ensures
        ({
            let t = on_consumed(s, id, len);
            let c = s.conn_recv;
            let next = c.consumed + len + c.window;
            &&& t == (SessionView { conn_recv: t.conn_recv, recv: t.recv, ..s })
            &&& if next > c.max && next - c.max >= c.window / 2 {
                &&& conn_update(s, len) == Some(FrameView::MaxData(next as u64))
                &&& t.conn_recv == (CreditView {
                    consumed: (c.consumed + len) as u64,
                    max: next as u64,
                    ..c
                })
            } else {
                &&& conn_update(s, len) is None
                &&& t.conn_recv == (CreditView { consumed: (c.consumed + len) as u64, ..c })
            }
            &&& !s.recv.contains_key(id) ==> t.recv == s.recv && stream_update(s, id, len) is None
            &&& s.recv.contains_key(id) ==> {
                let w = s.recv[id].credit;
                let next = w.consumed + len + w.window;
                if next > w.max && next - w.max >= w.window / 2 {
                    &&& stream_update(s, id, len) == Some(
                        FrameView::MaxStreamData { id, max: next as u64 },
                    )
                    &&& t.recv == s.recv.insert(
                        id,
                        RecvView {
                            credit: CreditView {
                                consumed: (w.consumed + len) as u64,
                                max: next as u64,
                                ..w
                            },
                            ..s.recv[id]
                        },
                    )
                } else {
                    &&& stream_update(s, id, len) is None
                    &&& t.recv == s.recv.insert(
                        id,
                        RecvView {
                            credit: CreditView { consumed: (w.consumed + len) as u64, ..w },
                            ..s.recv[id]
                        },
                    )
                }
            }
        }),
{
}

/// Law: the legacy format has no windows to update.
pub proof fn lemma_consumed_legacy(s: SessionView, id: u64, len: u64)
    requires
        s.version is WebTransport,
    ensures
        on_consumed(s, id, len) == s,
        conn_update(s, len) is None,
        stream_update(s, id, len) is None,
        streams_update(s, id) is None,
{
}

/// Law: a writer that used up what the connection allows can send again. Once the
/// other end read everything, it tells a larger limit, and with that the next claim
/// on a stream that has credit succeeds.
pub proof fn lemma_blocked_writer_goes_on(
    writer: SessionView,
    reader: SessionView,
    len: u64,
    id: u64,
    desired: u64,
)
    requires
        !(reader.version is WebTransport),
        reader.conn_recv.window > 0,
        reader.conn_recv.consumed + len == reader.conn_recv.max,
        reader.conn_recv.max + reader.conn_recv.window <= u64::MAX,
        writer.conn_send.max == reader.conn_recv.max,
        writer.conn_send.used == writer.conn_send.max,
        writer.send.contains_key(id),
        writer.send[id].credit matches Some(c) && c.used < c.max,
        desired > 0,
    ensures
        conn_update(reader, len) matches Some(f) && {
            &&& on_frame(writer, f) matches Ok((t, _))
            &&& on_consumed(reader, 0, len).conn_recv.max == t.conn_send.max
            &&& t.conn_send.max > t.conn_send.used
            &&& on_claim(writer, id, desired) is Err || on_claim(writer, id, desired) == Ok::<
                _,
                ErrorView,
            >(None::<(SessionView, u64)>)
            &&& on_claim(t, id, desired) matches Ok(Some((_, n)))
            &&& n > 0
        },
{
}

/// Law: a writer that used up what a stream allows can send again, once the other
/// end read everything on it.
pub proof fn lemma_blocked_stream_goes_on(
    writer: SessionView,
    reader: SessionView,
    len: u64,
    id: u64,
    desired: u64,
)
    requires
        !(reader.version is WebTransport),
        reader.recv.contains_key(id),
        reader.recv[id].credit.window > 0,
        reader.recv[id].credit.consumed + len == reader.recv[id].credit.max,
        reader.recv[id].credit.max + reader.recv[id].credit.window <= u64::MAX,
        writer.send.contains_key(id),
        writer.send[id].live,
        writer.send[id].credit matches Some(c) && c.used == c.max && c.max
            == reader.recv[id].credit.max,
        writer.conn_send.used < writer.conn_send.max,
        desired > 0,
    ensures
        stream_update(reader, id, len) matches Some(f) && {
            &&& on_frame(writer, f) matches Ok((t, _))
            &&& on_claim(t, id, desired) matches Ok(Some((_, n)))
            &&& n > 0
        },
{
}

/// Law: letting go of the receiving side of a stream of the peer counts towards
/// allowing it another one, and it is told so where the limit lags behind by at
/// least half of what we advertise. Streams of ours do not count.
pub proof fn lemma_recv_dropped(s: SessionView, id: u64)
    requires
        s.recv_bi.consumed + 1 + s.recv_bi.window <= u64::MAX,
        s.recv_uni.consumed + 1 + s.recv_uni.window <= u64::MAX,
    ensures
        ({
            let t = on_recv_dropped(s, id);
            let bi = id % 4 < 2;
            let c = if bi {
                s.recv_bi
            } else {
                s.recv_uni
            };
            let counts = !(s.version is WebTransport) && (id % 2 == 1) != s.is_server;
            let next = c.consumed + 1 + c.window;
            let told = counts && next > c.max && next - c.max >= c.window / 2;
            let after = CreditView {
                consumed: (c.consumed + 1) as u64,
                max: if told {
                    next as u64
                } else {
                    c.max
                },
                ..c
            };
            &&& streams_update(s, id) == if !told {
                None
            } else if bi {
                Some(FrameView::MaxStreamsBidi(next as u64))
            } else {
                Some(FrameView::MaxStreamsUni(next as u64))
            }
            &&& t.recv_bi == if counts && bi {
                after
            } else {
                s.recv_bi
            }
            &&& t.recv_uni == if counts && !bi {
                after
            } else {
                s.recv_uni
            }
            &&& t.recv == if !s.recv.contains_key(id) {
                s.recv
            } else if s.recv[id].live {
                s.recv.insert(id, RecvView { held: false, ..s.recv[id] })
            } else {
                s.recv.remove(id)
            }
            &&& t == (SessionView { recv: t.recv, recv_bi: t.recv_bi, recv_uni: t.recv_uni, ..s })
        }),
{
}

/// Law: what a refused frame leaves behind. Data that passed the limit of the
/// connection stays counted there, a stream that was within its limit counts as
/// opened, parameters count as received, and every other frame leaves nothing.
pub proof fn lemma_refused(s: SessionView, f: FrameView)
    ensures
        ({
            let t = after_refusal(s, f);
            match f {
                FrameView::TransportParameters(_) => t == (SessionView {
                    params_received: true,
                    ..s
                }),
                FrameView::Stream { id, data, .. } => {
                    let bi = id % 4 < 2;
                    let limit = if bi {
                        s.recv_bi
                    } else {
                        s.recv_uni
                    };
                    let counted = data.len() <= MAX_FRAME_PAYLOAD && (bi || (id % 2 == 1)
                        != s.is_server) && s.conn_recv.used + data.len() <= s.conn_recv.max;
                    let open = s.recv.contains_key(id) && s.recv[id].live;
                    let records = counted && !open && !(s.version is WebTransport) && id / 4 + 1
                        <= limit.max;
                    &&& t.conn_recv == if counted {
                        CreditView {
                            used: (s.conn_recv.used + data.len()) as u64,
                            ..s.conn_recv
                        }
                    } else {
                        s.conn_recv
                    }
                    &&& t.opened_bi == if records && bi {
                        s.opened_bi.insert(id / 4)
                    } else {
                        s.opened_bi
                    }
                    &&& t.opened_uni == if records && !bi {
                        s.opened_uni.insert(id / 4)
                    } else {
                        s.opened_uni
                    }
                    &&& t.recv_bi == if records && bi && id / 4 + 1 > limit.used {
                        CreditView { used: (id / 4 + 1) as u64, ..limit }
                    } else {
                        s.recv_bi
                    }
                    &&& t.recv_uni == if records && !bi && id / 4 + 1 > limit.used {
                        CreditView { used: (id / 4 + 1) as u64, ..limit }
                    } else {
                        s.recv_uni
                    }
                    &&& t == (SessionView {
                        conn_recv: t.conn_recv,
                        opened_bi: t.opened_bi,
                        opened_uni: t.opened_uni,
                        recv_bi: t.recv_bi,
                        recv_uni: t.recv_uni,
                        ..s
                    })
                },
                _ => t == s,
            }
        }),
{
}

/// Law: a session that is torn down reports why. Nobody waits on it any more: no
/// stream can be opened, and a claim that finds no credit fails.
pub proof fn lemma_torn_down(
    s: SessionView,
    err: ErrorView,
    dir: StreamDir,
    id: u64,
    desired: u64,
)
    ensures
        ({
            let t = torn_down(s, err);
            &&& t.closed == Some(err)
            &&& on_open(t, dir) == Err::<Option<(SessionView, u64)>, _>(ErrorView::Closed)
            &&& on_claim(t, id, desired) != Ok::<_, ErrorView>(None::<(SessionView, u64)>)
            &&& t.conn_send == (CreditView { closed: true, ..s.conn_send })
            &&& t.conn_recv == (CreditView { closed: true, ..s.conn_recv })
            &&& t.open_bi == (CreditView { closed: true, ..s.open_bi })
            &&& t.open_uni == (CreditView { closed: true, ..s.open_uni })
            &&& t.send.contains_key(id) == s.send.contains_key(id)
            &&& s.send.contains_key(id) ==> {
                &&& t.send[id].live == s.send[id].live
                &&& t.send[id].held == s.send[id].held
                &&& match s.send[id].credit {
                    Some(c) => t.send[id].credit == Some(CreditView { closed: true, ..c }),
                    None => t.send[id].credit is None,
                }
            }
            &&& t == (SessionView {
                conn_send: t.conn_send,
                conn_recv: t.conn_recv,
                open_bi: t.open_bi,
                open_uni: t.open_uni,
                send: t.send,
                closed: t.closed,
                ..s
            })
        }),
{
}

/// Law: closing a session from our side sets its reason and nothing else, unless
/// nobody is left who waits for one.
pub proof fn lemma_own_close(s: SessionView, code: u64, reason: Seq<char>, writing: bool)
    ensures
        writing || !s.conn_send.closed ==> on_close(s, code, reason, writing) == (SessionView {
            closed: Some(ErrorView::ConnectionClosed { code, reason }),
            ..s
        }),
        !writing && s.conn_send.closed ==> on_close(s, code, reason, writing) == s,
{
}

/// Law: both ends can talk on a stream that one of them opens. Once the handshake
/// is done, the first data on it makes the other end hand it out whole, and where
/// it goes both ways, that end can answer at once as far as the opener's window and
/// the connection allow.
pub proof fn lemma_stream_can_be_answered(
    opener: SessionView,
    acceptor: SessionView,
    data: Seq<u8>,
    fin: bool,
    desired: u64,
)
    requires
        opener.is_server != acceptor.is_server,
        !(acceptor.version is WebTransport),
        !opener.open_bi.closed,
        opener.open_bi.used < opener.open_bi.max,
        opener.open_bi.used < acceptor.recv_bi.max <= 0x1000_0000_0000_0000,
        !acceptor.opened_bi.contains(opener.open_bi.used),
        !acceptor.recv.contains_key(
            (4 * opener.open_bi.used + (if opener.is_server {
                1int
            } else {
                0int
            })) as u64,
        ),
        acceptor.peer == opener.ours,
        data.len() <= MAX_FRAME_PAYLOAD,
        data.len() <= acceptor.ours.initial_max_stream_data_bidi_remote,
        acceptor.conn_recv.used + data.len() <= acceptor.conn_recv.max,
        acceptor.conn_send.used < acceptor.conn_send.max,
        opener.ours.initial_max_stream_data_bidi_local > 0,
        desired > 0,
    ensures
        on_open(opener, StreamDir::Bi) matches Ok(Some((o, id))) && {
            &&& on_frame(acceptor, FrameView::Stream { id, data, fin }) matches Ok((a, e))
            &&& e == (EventView::Accept { id, data, fin })
            &&& on_claim(a, id, desired) matches Ok(Some((b, n)))
            &&& 0 < n <= desired
            &&& n == desired || n == opener.ours.initial_max_stream_data_bidi_local || n
                == acceptor.conn_send.max - acceptor.conn_send.used
            &&& b.send[id].credit->0.used == n
            // What is sent within that, the opener takes.
            &&& o.recv[id].live && o.recv[id].credit.max
                >= opener.ours.initial_max_stream_data_bidi_local || opener.version is WebTransport
        },
{
    lemma_open(opener, StreamDir::Bi);
    if let Ok(Some((_, id))) = on_open(opener, StreamDir::Bi) {
        lemma_new_stream(acceptor, id, data, fin);
    }
}

/// Law: once the last frame of a side of a stream was handed to the transport, that
/// side is over: a FIN or a RESET_STREAM ends the sending side, and a STOP_SENDING
/// the receiving one. It stays known while the application holds it. No other frame
/// changes anything.
pub proof fn lemma_last_frame_retires(s: SessionView, f: FrameView)
    ensures
        ({
            let t = retiring(s, f);
            match f {
                FrameView::Stream { id, fin: true, .. } | FrameView::ResetStream { id, .. } => {
                    &&& t == (SessionView { send: t.send, ..s })
                    &&& !s.send.contains_key(id) ==> t.send == s.send
                    &&& s.send.contains_key(id) && s.send[id].held ==> t.send == s.send.insert(
                        id,
                        SendView { live: false, ..s.send[id] },
                    )
                    &&& s.send.contains_key(id) && !s.send[id].held ==> t.send == s.send.remove(id)
                },
                FrameView::StopSending { id, .. } => {
                    &&& t == (SessionView { recv: t.recv, ..s })
                    &&& !s.recv.contains_key(id) ==> t.recv == s.recv
                    &&& s.recv.contains_key(id) && s.recv[id].held ==> t.recv == s.recv.insert(
                        id,
                        RecvView { live: false, ..s.recv[id] },
                    )
                    &&& s.recv.contains_key(id) && !s.recv[id].held ==> t.recv == s.recv.remove(id)
                },
                _ => t == s,
            }
        }),
{
}

/// Law: a sending side that the application lets go of stays until its last frame is
/// sent, so that what is queued still has credit, and is gone where it was sent.
pub proof fn lemma_send_dropped(m: Map<u64, SendView>, id: u64)
    ensures
        ({
            let t = send_dropped(m, id);
            &&& !m.contains_key(id) ==> t == m
            &&& m.contains_key(id) && m[id].live ==> t == m.insert(
                id,
                SendView { held: false, ..m[id] },
            )
            &&& m.contains_key(id) && !m[id].live ==> t == m.remove(id)
        }),
{
}

/// Law: the writer takes control frames first, then datagrams, each in the order in
/// which they were queued, and then the first frame of a stream than which none that
/// waits has a higher priority. Whatever it does not take stays.
pub proof fn lemma_writer_takes(v: OutboundView, other: u64)
    requires
        lanes_wf(v.streams.lanes),
    ensures
        ({
            let (t, next) = taken(v);
            let lanes = v.streams.lanes;
            &&& v.control.len() > 0 ==> {
                &&& next == NextView::Frame(v.control[0])
                &&& t == (OutboundView { control: v.control.skip(1), ..v })
            }
            &&& v.control.len() == 0 && v.datagrams.len() > 0 ==> {
                &&& next == NextView::Frame(
                    FrameView::Datagram { data: v.datagrams[0], length_prefixed: true },
                )
                &&& t == (OutboundView { datagrams: v.datagrams.skip(1), ..v })
            }
            &&& v.control.len() == 0 && v.datagrams.len() == 0 ==> {
                &&& v.streams.closed ==> next is Closed && t == v
                &&& !v.streams.closed && lanes.len() == 0 ==> next is Empty && t == v
                &&& !v.streams.closed && lanes.len() > 0 ==> exists|i: int|
                    0 <= i < lanes.len() && next == NextView::Frame((#[trigger] lanes[i]).frames[0])
                        && (forall|j: int|
                        0 <= j < lanes.len() ==> (#[trigger] lanes[j]).priority
                            <= lanes[i].priority) && queued(t.streams.lanes, lanes[i].id)
                        == lanes[i].frames.skip(1) && (other != lanes[i].id ==> queued(
                        t.streams.lanes,
                        other,
                    ) == queued(lanes, other))
                &&& t == (OutboundView { streams: t.streams, ..v })
                &&& t.streams == (QueueView { lanes: t.streams.lanes, ..v.streams })
            }
        }),
{
    let lanes = v.streams.lanes;
    assert(v.control.len() > 0 ==> v.control.skip(1) =~= v.control.drop_first());
    assert(v.datagrams.len() > 0 ==> v.datagrams.skip(1) =~= v.datagrams.drop_first());
    if lanes.len() > 0 {
        lemma_pop_in_order(lanes, other);
        let i = next_lane(lanes);
        assert(lanes[i].frames.skip(1) =~= lanes[i].frames.drop_first());
        assert(lanes[i].frames == queued(lanes, lanes[i].id));
    }
}

/// Law: a datagram waits behind the others while there is room, and is dropped
/// otherwise; none that waits is lost for it.
pub proof fn lemma_shedding(waiting: Seq<Seq<u8>>, payload: Seq<u8>, room: usize)
    ensures
        waiting.len() < room ==> shed(waiting, payload, room) == waiting.push(payload),
        waiting.len() >= room ==> shed(waiting, payload, room) == waiting,
{
}

/// Law: a frame that the version has, whose numbers fit and which is no longer than
/// the largest record is sent. What goes out is the frame in the format of the
/// version. Nothing else is sent, and the error says why.
pub proof fn lemma_transmitted(s: SessionView, f: FrameView, r: Result<Bytes, Error>)
    requires
        transmitted(s, f, r),
        s.version is WebTransport ==> f.encodable(),
    ensures
        ({
            let bytes = if s.version is WebTransport {
                wt_encoding(f)
            } else {
                qmux_encoding(f)
            };
            let fits = !(s.version is QMux01) || bytes.len() <= s.record_limit;
            &&& f.supported(s.version) && f.encodable() && fits ==> (r matches Ok(b) && contents(b)
                == bytes)
            &&& r matches Ok(b) ==> f.supported(s.version) && f.encodable() && fits && contents(b)
                == bytes
            &&& f.supported(s.version) && f.encodable() && !fits ==> (r matches Err(e)
                && e is FrameTooLarge)
            &&& f.supported(s.version) && !f.encodable() ==> (r matches Err(e)
                && e is FlowControlError)
            &&& !f.supported(s.version) ==> (r matches Err(e) && e@ == ErrorView::InvalidFrameType(
                0,
            ))
        }),
{
}

/// Law: writing on an open stream takes as much of the buffer as the stream, the
/// connection and one frame have room for, and waits only where the peer grants
/// nothing more. A stream that was given up or finished takes nothing.
pub proof fn lemma_write_begins(stream: SendStreamView, session: SessionView, buf: Seq<u8>)
    requires
        session.conn_send.used <= session.conn_send.max,
        session.send.contains_key(stream.id) ==> (session.send[stream.id].credit matches Some(c)
            ==> c.used <= c.max),
        buf.len() <= u64::MAX,
    ensures
        ({
            let r = write_outcome(stream, session, buf);
            let open = stream.closed is None && !stream.fin;
            let id = stream.id;
            let most = if buf.len() <= MAX_FRAME_PAYLOAD {
                buf.len() as u64
            } else {
                MAX_FRAME_PAYLOAD as u64
            };
            &&& stream.closed matches Some(e) ==> r == WriteOutcome::Failed(e)
            &&& stream.closed is None && stream.fin ==> r == WriteOutcome::Failed(
                ErrorView::StreamClosed,
            )
            &&& open && buf.len() == 0 ==> r is Done
            &&& open && buf.len() > 0 && !session.send.contains_key(id) ==> r
                == WriteOutcome::Failed(ErrorView::Closed)
            &&& open && buf.len() > 0 && session.send.contains_key(id) ==> match session.send[id].credit {
                None => r == (WriteOutcome::Claimed { session, n: most }),
                Some(c) => {
                    let conn_left = session.conn_send.max - session.conn_send.used;
                    if c.used < c.max && conn_left > 0 {
                        &&& r matches WriteOutcome::Claimed { session: t, n }
                        &&& 0 < n <= most && n <= c.max - c.used && n <= conn_left
                        &&& n == most || n == c.max - c.used || n == conn_left
                        &&& t.conn_send.used == session.conn_send.used + n
                        &&& t.send[id].credit == Some(
                            CreditView { used: (c.used + n) as u64, ..c },
                        )
                    } else if c.used == c.max && c.closed || c.used < c.max
                        && session.conn_send.closed {
                        r == WriteOutcome::Failed(ErrorView::Closed)
                    } else {
                        r is WaitCredit
                    }
                },
            }
        }),
{
    if stream.closed is None && !stream.fin && buf.len() > 0 {
        lemma_claim_exact(
            session,
            stream.id,
            if buf.len() <= MAX_FRAME_PAYLOAD {
                buf.len() as u64
            } else {
                MAX_FRAME_PAYLOAD as u64
            },
        );
    }
}

/// Law: a piece goes behind everything that is queued for its stream where there is
/// room, and then counts as sent. A full queue changes nothing, and a closed one
/// gives the credit of the piece back.
pub proof fn lemma_piece(
    stream: SendStreamView,
    session: SessionView,
    queue: QueueView,
    data: Seq<u8>,
    other: u64,
)
    requires
        lanes_wf(queue.lanes),
        data.len() + stream.offset <= u64::MAX,
    ensures
        ({
            let (v, s, q) = with_piece(stream, session, queue, data);
            let id = stream.id;
            let full = total(queue.lanes) >= queue.capacity;
            &&& queue.closed ==> {
                &&& v == stream && q == queue
                &&& s == on_release(session, id, data.len() as u64)
            }
            &&& !queue.closed && full ==> v == stream && q == queue && s == session
            &&& !queue.closed && !full ==> {
                &&& s == session
                &&& v == (SendStreamView { offset: (stream.offset + data.len()) as u64, ..stream })
                &&& queued(q.lanes, id) == queued(queue.lanes, id).push(
                    FrameView::Stream { id, data, fin: false },
                )
                &&& other != id ==> queued(q.lanes, other) == queued(queue.lanes, other)
                &&& q == (QueueView { lanes: q.lanes, ..queue })
            }
        }),
{
    lemma_push_keeps_order(
        queue.lanes,
        stream.priority,
        stream.id,
        FrameView::Stream { id: stream.id, data, fin: false },
        other,
    );
}

/// Law: what is reported of a piece says whether it was queued, waits or is lost.
pub proof fn lemma_piece_reported(queue: QueueView, data: Seq<u8>, r: Result<WriteStep, Error>)
    requires
        piece_result(queue, data, r),
    ensures
        queue.closed ==> (r matches Err(e) && e is Closed),
        !queue.closed && total(queue.lanes) >= queue.capacity ==> (r matches Ok(
            WriteStep::WaitQueue(p),
        ) && p@ == data),
        !queue.closed && total(queue.lanes) < queue.capacity ==> (r matches Ok(WriteStep::Sent(n))
            && n == data.len()),
{
}

/// Law: a stop of the peer ends a stream with its code, and is answered with a
/// RESET_STREAM of the same code that says how much was sent, unless a FIN ended the
/// stream before. One that comes after the end of the stream changes nothing.
pub proof fn lemma_stop_answered(v: SendStreamView, code: u64)
    ensures
        v.closed matches Some(e) ==> on_stop(v, code) == (v, e, None::<FrameView>),
        v.closed is None ==> {
            let (t, e, answer) = on_stop(v, code);
            &&& t == (SendStreamView { closed: Some(ErrorView::StreamStop(code)), ..v })
            &&& e == ErrorView::StreamStop(code)
            &&& v.fin ==> answer is None
            &&& !v.fin ==> answer == Some(
                FrameView::ResetStream { id: v.id, code, final_size: v.offset },
            )
        },
{
}

/// Law: a read takes what is asked for, as far as that has arrived.
pub proof fn lemma_read_takes(buffer: Seq<u8>, max: usize)
    requires
        buffer.len() <= u64::MAX,
    ensures
        read_len(buffer, max) <= buffer.len(),
        read_len(buffer, max) <= max,
        read_len(buffer, max) == buffer.len() || read_len(buffer, max) == max,
{
}

/// Law: a number of milliseconds is a million times as many nanoseconds.
pub proof fn lemma_idle_window(ms: u64)
    ensures
        ms * 1_000_000 <= u64::MAX ==> window_nanos(ms) == ms * 1_000_000,
        ms * 1_000_000 > u64::MAX ==> window_nanos(ms) == u64::MAX,
{
}

/// Law: what a frame is received as: itself, but for padding, which is nothing, a
/// datagram, which is always written behind its length, parameters without a record
/// size, which stand for the default, and the final size of a reset in the legacy
/// format, which does not carry it.
pub proof fn lemma_received_form(f: FrameView, version: Version)
    ensures
        version is WebTransport ==> received_form(f, version) == Some(
            match f {
                FrameView::ResetStream { id, code, .. } => FrameView::ResetStream {
                    id,
                    code,
                    final_size: 0,
                },
                g => g,
            },
        ),
        !(version is WebTransport) ==> match f {
            FrameView::Padding => received_form(f, version) is None,
            FrameView::Datagram { data, .. } => received_form(f, version) == Some(
                FrameView::Datagram { data, length_prefixed: true },
            ),
            FrameView::TransportParameters(p) => received_form(f, version) == Some(
                FrameView::TransportParameters(
                    ParamsView {
                        max_record_size: if p.max_record_size == 0 {
                            16382
                        } else {
                            p.max_record_size
                        },
                        ..p
                    },
                ),
            ),
            g => received_form(f, version) == Some(g),
        },
{
}

/// Law: the name that a refused list of protocols is refused for is the first one
/// that is no token.
pub proof fn lemma_first_invalid_named(names: Seq<Seq<char>>, e: ErrorView, p: ProtocolView)
    requires
        names_first_invalid(names, e),
    ensures
        exists|i: int|
            0 <= i < names.len() && e == ErrorView::InvalidProtocol(#[trigger] names[i])
                && !is_token(names[i]) && (forall|j: int|
                0 <= j < i ==> is_token(#[trigger] names[j])),
        match p {
            ProtocolView::Negotiate(list) => advertised(p) == list,
            _ => advertised(p).len() == 0,
        },
{
}

} // verus!
