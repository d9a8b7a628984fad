//! Delimiting messages on a byte stream (TCP, TLS, Unix sockets).
//!
//! Draft-00 frames carry no size of their own, so where one ends follows from
//! its type and fields. Draft-01 frames travel inside records behind their size.
//! (On WebSocket the message boundary delimits.)

use bytes::{Bytes, BytesMut};
use vstd::prelude::*;
use vstd::utf8::encode_utf8;

use super::error::{Error, ErrorView};
use super::proto::frame::{
    APPLICATION_CLOSE, CONNECTION_CLOSE, DATAGRAM_LEN, DATA_BLOCKED, FrameView, MAX_DATA,
    MAX_STREAMS_BIDI, MAX_STREAMS_UNI, MAX_STREAM_DATA, QX_PING_REQUEST, QX_PING_RESPONSE,
    QX_TRANSPORT_PARAMETERS, RESET_STREAM, STOP_SENDING, STREAMS_BLOCKED_BIDI, STREAMS_BLOCKED_UNI,
    STREAM_BASE, STREAM_DATA_BLOCKED, frame_in, qmux_encoding, type_of,
};
use super::proto::params::params_encoding;
use super::proto::varint::{
    VARINT_MAX, encoding, lemma_parse_bounds, lemma_parse_prefix, lemma_round_trip, parse,
    parse_slice,
};
use super::proto::version::Version;
use super::proto::wire::{one, prefixed, prefixed_encoding, put_value};
use super::proto::{MAX_FRAME_PAYLOAD, MAX_FRAME_SIZE};
use crate::buffer::{contents, put_slice, written, written_slice};

verus! {

/// What follows the type of a frame.
pub enum Layout {
    /// As many integers.
    Integers(nat),
    /// As many integers, then a length up to the limit and as many bytes.
    Payload(nat, u64),
    /// As many integers and then bytes without a length, which cannot be
    /// delimited on a byte stream.
    Unbounded(nat),
    /// No such frame here.
    Unknown,
}

/// The layout of a frame of type `ty` on a byte stream.
pub open spec fn layout(ty: u64) -> Layout {
    if STREAM_BASE <= ty < STREAM_BASE + 8 {
        // The stream, and the offset where there is one.
        let n: nat = if ty / 4 % 2 == 1 {
            2
        } else {
            1
        };
        if ty / 2 % 2 == 1 {
            Layout::Payload(n, MAX_FRAME_PAYLOAD as u64)
        } else {
            Layout::Unbounded(n)
        }
    } else if ty == 0 {
        Layout::Integers(0)
    } else if ty == RESET_STREAM {
        Layout::Integers(3)
    } else if ty == STOP_SENDING || ty == MAX_STREAM_DATA || ty == STREAM_DATA_BLOCKED {
        Layout::Integers(2)
    } else if ty == MAX_DATA || ty == MAX_STREAMS_BIDI || ty == MAX_STREAMS_UNI || ty
        == DATA_BLOCKED || ty == STREAMS_BLOCKED_BIDI || ty == STREAMS_BLOCKED_UNI || ty
        == QX_PING_REQUEST || ty == QX_PING_RESPONSE {
        Layout::Integers(1)
    } else if ty == CONNECTION_CLOSE || ty == APPLICATION_CLOSE {
        Layout::Payload(2, MAX_FRAME_SIZE as u64)
    } else if ty == DATAGRAM_LEN || ty == QX_TRANSPORT_PARAMETERS {
        Layout::Payload(0, MAX_FRAME_SIZE as u64)
    } else {
        Layout::Unknown
    }
}

/// Where the message at the front of a byte stream stands.
pub enum Extent {
    /// Not all of it is there yet.
    More,
    /// From `start` to before `end`.
    Done { start: nat, end: nat },
    /// It cannot be received.
    Bad(ErrorView),
}

/// Where `k` integers that start at `at` end, if they are all there.
pub open spec fn after_integers(s: Seq<u8>, at: nat, k: nat) -> Option<nat>
    decreases k,
{
    if k == 0 {
        Some(at)
    } else if at > s.len() {
        None
    } else {
        match parse(s.skip(at as int)) {
            Some((_, n)) => after_integers(s, at + n, (k - 1) as nat),
            None => None,
        }
    }
}

/// The extent of the draft-00 frame at the front of `s`.
pub open spec fn frame_extent(s: Seq<u8>) -> Extent {
    match parse(s) {
        None => Extent::More,
        Some((ty, n)) => match layout(ty) {
            Layout::Unknown => Extent::Bad(ErrorView::InvalidFrameType(ty)),
            Layout::Integers(k) => match after_integers(s, n, k) {
                None => Extent::More,
                Some(end) => Extent::Done { start: 0, end },
            },
            Layout::Unbounded(k) => match after_integers(s, n, k) {
                None => Extent::More,
                Some(_) => Extent::Bad(ErrorView::Short),
            },
            Layout::Payload(k, limit) => match after_integers(s, n, k) {
                None => Extent::More,
                Some(at) => payload_extent(s, 0, at, limit),
            },
        },
    }
}

/// The extent of a message from `start` whose last part is the length at `at`
/// and as many bytes.
pub open spec fn payload_extent(s: Seq<u8>, start: nat, at: nat, limit: u64) -> Extent {
    match parse(s.skip(at as int)) {
        None => Extent::More,
        Some((len, n)) => if len > limit {
            Extent::Bad(ErrorView::FrameTooLarge)
        } else if s.len() < at + n + len {
            Extent::More
        } else {
            Extent::Done { start, end: at + n + len as nat }
        },
    }
}

/// The extent of the draft-01 record at the front of `s`: its size, and then
/// its frames. What it stands for starts after the size.
pub open spec fn record_extent(s: Seq<u8>, limit: u64) -> Extent {
    match parse(s) {
        None => Extent::More,
        Some((size, n)) => if size > limit {
            Extent::Bad(ErrorView::FrameTooLarge)
        } else if s.len() < n + size {
            Extent::More
        } else {
            Extent::Done { start: n, end: n + size as nat }
        },
    }
}

/// The extent of the message at the front of `s`.
pub open spec fn message_extent(s: Seq<u8>, version: Version, limit: u64) -> Extent {
    if version is QMux01 {
        record_extent(s, limit)
    } else {
        frame_extent(s)
    }
}

/// An integer that is there stays there when more comes.
proof fn lemma_parse_more(s: Seq<u8>, more: Seq<u8>, at: nat)
    requires
        at <= s.len(),
        parse(s.skip(at as int)) is Some,
    ensures
        parse((s + more).skip(at as int)) == parse(s.skip(at as int)),
{
    assert((s + more).skip(at as int) =~= s.skip(at as int) + more);
    lemma_parse_prefix(s.skip(at as int), more);
}

proof fn lemma_integers_more(s: Seq<u8>, more: Seq<u8>, at: nat, k: nat)
    requires
        at <= s.len(),
        after_integers(s, at, k) is Some,
    ensures
        after_integers(s + more, at, k) == after_integers(s, at, k),
        after_integers(s, at, k)->0 <= s.len(),
    decreases k,
{
    if k > 0 {
        lemma_parse_more(s, more, at);
        lemma_parse_bounds(s.skip(at as int));
        let (_, n) = parse(s.skip(at as int))->0;
        lemma_integers_more(s, more, at + n, (k - 1) as nat);
    }
}

proof fn lemma_payload_more(s: Seq<u8>, more: Seq<u8>, start: nat, at: nat, limit: u64)
    requires
        at <= s.len(),
        !(payload_extent(s, start, at, limit) is More),
    ensures
        payload_extent(s + more, start, at, limit) == payload_extent(s, start, at, limit),
{
    lemma_parse_more(s, more, at);
}

/// Law: once a message is complete, or cannot be received, nothing that arrives
/// later changes that. So it does not matter in which pieces the bytes arrive.
pub proof fn lemma_extent_stable(s: Seq<u8>, more: Seq<u8>, version: Version, limit: u64)
    requires
        !(message_extent(s, version, limit) is More),
    ensures
        message_extent(s + more, version, limit) == message_extent(s, version, limit),
{
    lemma_parse_prefix(s, more);
    lemma_parse_bounds(s);
    if !(version is QMux01) {
        let (ty, n) = parse(s)->0;
        match layout(ty) {
            Layout::Integers(k) => lemma_integers_more(s, more, n, k),
            Layout::Unbounded(k) => lemma_integers_more(s, more, n, k),
            Layout::Payload(k, limit) => {
                lemma_integers_more(s, more, n, k);
                lemma_payload_more(s, more, 0, after_integers(s, n, k)->0, limit);
            },
            Layout::Unknown => {},
        }
    }
}

/// Law: a message lies within what has arrived and is not empty on the wire.
pub proof fn lemma_extent_bounds(s: Seq<u8>, version: Version, limit: u64)
    ensures
        message_extent(s, version, limit) matches Extent::Done { start, end } ==> start <= end
            && 0 < end <= s.len(),
{
    lemma_parse_bounds(s);
    if !(version is QMux01) && parse(s) is Some {
        let (ty, n) = parse(s)->0;
        match layout(ty) {
            Layout::Integers(k) => {
                if after_integers(s, n, k) is Some {
                    lemma_integers_more(s, Seq::empty(), n, k);
                    lemma_integers_forward(s, n, k);
                }
            },
            Layout::Payload(k, limit) => {
                if after_integers(s, n, k) is Some {
                    lemma_integers_more(s, Seq::empty(), n, k);
                    lemma_integers_forward(s, n, k);
                }
            },
            _ => {},
        }
    }
}

proof fn lemma_integers_forward(s: Seq<u8>, at: nat, k: nat)
    ensures
        after_integers(s, at, k) matches Some(end) ==> at <= end,
    decreases k,
{
    if k > 0 && at <= s.len() {
        if let Some((_, n)) = parse(s.skip(at as int)) {
            lemma_integers_forward(s, at + n, (k - 1) as nat);
        }
    }
}

/// Integers in a row.
pub open spec fn integers_encoding(list: Seq<u64>) -> Seq<u8>
    decreases list.len(),
{
    if list.len() == 0 {
        Seq::empty()
    } else {
        encoding(list[0]) + integers_encoding(list.drop_first())
    }
}

/// The integers between the type of a frame and its payload.
pub open spec fn integers_of(f: FrameView) -> Seq<u64> {
    match f {
        FrameView::Padding => Seq::empty(),
        FrameView::ResetStream { id, code, final_size } => seq![id, code, final_size],
        FrameView::StopSending { id, code } => seq![id, code],
        FrameView::ConnectionClose { code, .. } => seq![code, 0],
        FrameView::Stream { id, .. } => seq![id],
        FrameView::MaxData(v) => seq![v],
        FrameView::MaxStreamData { id, max } => seq![id, max],
        FrameView::MaxStreamsBidi(v) => seq![v],
        FrameView::MaxStreamsUni(v) => seq![v],
        FrameView::DataBlocked(v) => seq![v],
        FrameView::StreamDataBlocked { id, limit } => seq![id, limit],
        FrameView::StreamsBlockedBidi(v) => seq![v],
        FrameView::StreamsBlockedUni(v) => seq![v],
        FrameView::TransportParameters(_) => Seq::empty(),
        FrameView::Ping { sequence, .. } => seq![sequence],
        FrameView::Datagram { .. } => Seq::empty(),
    }
}

/// The payload of a frame, where it has one.
pub open spec fn payload_of(f: FrameView) -> Option<Seq<u8>> {
    match f {
        FrameView::ConnectionClose { reason, .. } => Some(encode_utf8(reason)),
        FrameView::Stream { data, .. } => Some(data),
        FrameView::TransportParameters(p) => Some(params_encoding(p)),
        FrameView::Datagram { data, .. } => Some(data),
        _ => None,
    }
}

/// Whether the payload of a frame is one that a byte stream delivers.
pub open spec fn payload_fits(f: FrameView) -> bool {
    match payload_of(f) {
        Some(p) => p.len() <= if f is Stream {
            MAX_FRAME_PAYLOAD as int
        } else {
            MAX_FRAME_SIZE as int
        },
        None => true,
    }
}

proof fn lemma_integers_skip(pre: Seq<u8>, list: Seq<u64>, tail: Seq<u8>)
    requires
        forall|i: int| 0 <= i < list.len() ==> #[trigger] list[i] <= VARINT_MAX,
    ensures
        after_integers(pre + integers_encoding(list) + tail, pre.len(), list.len()) == Some(
            pre.len() + integers_encoding(list).len(),
        ),
    decreases list.len(),
{
    let s = pre + integers_encoding(list) + tail;
    if list.len() > 0 {
        let first = encoding(list[0]);
        let more = integers_encoding(list.drop_first());
        assert(s.skip(pre.len() as int) =~= first + (more + tail));
        lemma_round_trip(list[0], more + tail);
        assert(s =~= (pre + first) + more + tail);
        assert forall|i: int| 0 <= i < list.len() - 1 implies #[trigger] list.drop_first()[i]
            <= VARINT_MAX by {
            assert(list.drop_first()[i] == list[i + 1]);
        }
        lemma_integers_skip(pre + first, list.drop_first(), tail);
    }
}

proof fn lemma_parts(f: FrameView)
    ensures
        qmux_encoding(f) == encoding(type_of(f)) + integers_encoding(integers_of(f)) + (
        match payload_of(f) {
            Some(p) => prefixed_encoding(p),
            None => Seq::empty(),
        }),
        f.encodable() ==> forall|i: int|
            0 <= i < integers_of(f).len() ==> #[trigger] integers_of(f)[i] <= VARINT_MAX,
        f.encodable() && payload_of(f) is Some ==> payload_of(f)->0.len() <= VARINT_MAX,
        layout(type_of(f)) == match payload_of(f) {
            Some(_) => Layout::Payload(
                integers_of(f).len(),
                if f is Stream {
                    MAX_FRAME_PAYLOAD as u64
                } else {
                    MAX_FRAME_SIZE as u64
                },
            ),
            None => Layout::Integers(integers_of(f).len()),
        },
{
    reveal_with_fuel(integers_encoding, 4);
    let list = integers_of(f);
    if list.len() > 0 {
        assert(list.drop_first().len() == list.len() - 1);
        if list.len() > 1 {
            assert(list.drop_first()[0] == list[1]);
            if list.len() > 2 {
                assert(list.drop_first().drop_first()[0] == list[2]);
            }
        }
    }
    assert(qmux_encoding(f) =~= encoding(type_of(f)) + integers_encoding(integers_of(f)) + (
    match payload_of(f) {
        Some(p) => prefixed_encoding(p),
        None => Seq::empty(),
    }));
}

/// A type, integers and a payload are delimited where the last of them ends.
proof fn lemma_shape_delimited(
    ty: u64,
    list: Seq<u64>,
    payload: Option<Seq<u8>>,
    limit: u64,
    rest: Seq<u8>,
)
    requires
        ty <= VARINT_MAX,
        forall|i: int| 0 <= i < list.len() ==> #[trigger] list[i] <= VARINT_MAX,
        match payload {
            Some(p) => layout(ty) == Layout::Payload(list.len(), limit) && p.len() <= limit
                && p.len() <= VARINT_MAX,
            None => layout(ty) == Layout::Integers(list.len()),
        },
    ensures
        ({
            let e = encoding(ty) + integers_encoding(list) + (match payload {
                Some(p) => prefixed_encoding(p),
                None => Seq::empty(),
            });
            frame_extent(e + rest) == (Extent::Done { start: 0, end: e.len() })
        }),
{
    let head = encoding(ty);
    let ints = integers_encoding(list);
    let last = match payload {
        Some(p) => prefixed_encoding(p),
        None => Seq::empty(),
    };
    let s = head + ints + last + rest;
    assert(s =~= head + (ints + last + rest));
    lemma_round_trip(ty, ints + last + rest);
    assert(s =~= head + ints + (last + rest));
    lemma_integers_skip(head, list, last + rest);
    if let Some(p) = payload {
        let at = head.len() + ints.len();
        assert(s.skip(at as int) =~= encoding(p.len() as u64) + (p + rest));
        lemma_round_trip(p.len() as u64, p + rest);
    }
}

/// Law: an encoded frame is delimited exactly, whatever follows it.
pub proof fn lemma_frame_delimited(f: FrameView, rest: Seq<u8>)
    requires
        f.encodable(),
        payload_fits(f),
    ensures
        frame_extent(qmux_encoding(f) + rest) == (Extent::Done {
            start: 0,
            end: qmux_encoding(f).len(),
        }),
{
    lemma_parts(f);
    let limit = if f is Stream {
        MAX_FRAME_PAYLOAD as u64
    } else {
        MAX_FRAME_SIZE as u64
    };
    lemma_shape_delimited(type_of(f), integers_of(f), payload_of(f), limit, rest);
}

/// Law: no part of an encoded frame is taken for a whole one.
pub proof fn lemma_partial_frame(f: FrameView, n: int)
    requires
        f.encodable(),
        payload_fits(f),
        0 <= n < qmux_encoding(f).len(),
    ensures
        frame_extent(qmux_encoding(f).take(n)) is More,
{
    let e = qmux_encoding(f);
    let part = e.take(n);
    lemma_frame_delimited(f, Seq::empty());
    assert(e + Seq::empty() =~= e);
    if !(frame_extent(part) is More) {
        lemma_extent_stable(part, e.skip(n), Version::QMux00, 0);
        assert(part + e.skip(n) =~= e);
        lemma_extent_bounds(part, Version::QMux00, 0);
    }
}

/// Law: a record is delimited exactly, whatever follows it, and stands for its
/// payload.
pub proof fn lemma_record_delimited(body: Seq<u8>, rest: Seq<u8>, limit: u64)
    requires
        body.len() <= limit,
        body.len() <= VARINT_MAX,
    ensures
        record_extent(prefixed_encoding(body) + rest, limit) == (Extent::Done {
            start: encoding(body.len() as u64).len(),
            end: prefixed_encoding(body).len(),
        }),
        prefixed_encoding(body).skip(encoding(body.len() as u64).len() as int) == body,
{
    let head = encoding(body.len() as u64);
    assert(prefixed_encoding(body) + rest =~= head + (body + rest));
    lemma_round_trip(body.len() as u64, body + rest);
    assert(prefixed_encoding(body).skip(head.len() as int) =~= body);
}

/// Law: no part of a record is taken for a whole one.
pub proof fn lemma_partial_record(body: Seq<u8>, n: int, limit: u64)
    requires
        body.len() <= limit,
        body.len() <= VARINT_MAX,
        0 <= n < prefixed_encoding(body).len(),
    ensures
        record_extent(prefixed_encoding(body).take(n), limit) is More,
{
    let e = prefixed_encoding(body);
    let part = e.take(n);
    lemma_record_delimited(body, Seq::empty(), limit);
    assert(e + Seq::empty() =~= e);
    if !(record_extent(part, limit) is More) {
        lemma_extent_stable(part, e.skip(n), Version::QMux01, limit);
        assert(part + e.skip(n) =~= e);
        lemma_extent_bounds(part, Version::QMux01, limit);
    }
}

proof fn lemma_one_at(s: Seq<u8>, end: nat, at: nat)
    requires
        at <= end <= s.len(),
        parse(s.skip(at as int)) matches Some((_, n)) && at + n <= end,
    ensures
        one(s.take(end as int).skip(at as int)) == ({
            let (v, n) = parse(s.skip(at as int))->0;
            Some((v, s.take(end as int).skip((at + n) as int)))
        }),
{
    let t = s.take(end as int).skip(at as int);
    let (v, n) = parse(s.skip(at as int))->0;
    lemma_parse_bounds(s.skip(at as int));
    assert(t[0] == s.skip(at as int)[0]);
    assert(t.take(n as int) =~= s.skip(at as int).take(n as int));
    assert(t.skip(n as int) =~= s.take(end as int).skip((at + n) as int));
}

/// Law: what is delimited on a draft-00 stream is a whole frame: decoding it
/// succeeds and leaves nothing over. Only the contents of transport parameters
/// can still be wrong.
pub proof fn lemma_delimited_decodes(s: Seq<u8>)
    requires
        frame_extent(s) is Done,
        parse(s) matches Some((ty, _)) && ty != QX_TRANSPORT_PARAMETERS,
    ensures
        frame_extent(s) matches Extent::Done { end, .. } && (frame_in(s.take(end as int)) matches Ok(
            (_, rest),
        ) && rest.len() == 0),
{
    let end = frame_extent(s)->end;
    let t = s.take(end as int);
    lemma_extent_bounds(s, Version::QMux00, 0);
    lemma_parse_bounds(s);
    assert(s.skip(0) =~= s);
    assert(t.skip(0) =~= t);
    let (ty, n0) = parse(s)->0;
    reveal_with_fuel(after_integers, 4);
    match layout(ty) {
        Layout::Integers(k) => {
            lemma_integers_forward(s, n0, k);
            lemma_one_at(s, end, 0);
            if k >= 1 {
                let (_, n1) = parse(s.skip(n0 as int))->0;
                lemma_integers_forward(s, n0 + n1, (k - 1) as nat);
                lemma_one_at(s, end, n0);
                if k >= 2 {
                    let (_, n2) = parse(s.skip((n0 + n1) as int))->0;
                    lemma_integers_forward(s, n0 + n1 + n2, (k - 2) as nat);
                    lemma_one_at(s, end, n0 + n1);
                    if k >= 3 {
                        lemma_one_at(s, end, n0 + n1 + n2);
                    }
                }
            }
        },
        Layout::Payload(k, limit) => {
            lemma_integers_forward(s, n0, k);
            let at = after_integers(s, n0, k)->0;
            let (len, n) = parse(s.skip(at as int))->0;
            lemma_one_at(s, end, 0);
            lemma_one_at(s, end, at);
            if k >= 1 {
                let (_, n1) = parse(s.skip(n0 as int))->0;
                lemma_integers_forward(s, n0 + n1, (k - 1) as nat);
                lemma_one_at(s, end, n0);
                if k >= 2 {
                    lemma_one_at(s, end, n0 + n1);
                }
            }
            assert(prefixed(t.skip(at as int)) matches Some((_, rest)) && rest.len() == 0);
        },
        _ => {},
    }
}

/// What was found at the front of a byte stream.
#[derive(Debug)]
pub enum Delimited {
    /// Not all of a message is there yet.
    More,
    /// A message stands from `start` to before `end`.
    Done { start: usize, end: usize },
    /// The stream cannot be received any further.
    Bad(Error),
}

/// A [`Delimited`] over plain values.
pub open spec fn extent_of(d: Delimited) -> Extent {
    match d {
        Delimited::More => Extent::More,
        Delimited::Done { start, end } => Extent::Done { start: start as nat, end: end as nat },
        Delimited::Bad(e) => Extent::Bad(e@),
    }
}

/// The integer at `at`, with where it ends.
fn integer_at(s: &[u8], at: usize) -> (r: Option<(u64, usize)>)
    requires
        at <= s@.len(),
    ensures
        match parse(s@.skip(at as int)) {
            Some((v, n)) => {
                &&& r matches Some((x, end))
                &&& x == v
                &&& end == at + n
                &&& end <= s@.len()
                &&& v <= VARINT_MAX
            },
            None => r is None,
        },
{
    proof {
        lemma_parse_bounds(s@.skip(at as int));
    }
    let tail = vstd::slice::slice_subrange(s, at, s.len());
    match parse_slice(tail) {
        Some((v, n)) => Some((v, at + n)),
        None => None,
    }
}

/// Where `k` integers that start at `at` end, if they are all there.
fn skip_integers(s: &[u8], at: usize, k: usize) -> (r: Option<usize>)
    requires
        at <= s@.len(),
    ensures
        match after_integers(s@, at as nat, k as nat) {
            Some(end) => {
                &&& r matches Some(x)
                &&& x == end
                &&& at <= end <= s@.len()
            },
            None => r is None,
        },
    decreases k,
{
    if k == 0 {
        return Some(at);
    }
    match integer_at(s, at) {
        Some((_, next)) => skip_integers(s, next, k - 1),
        None => None,
    }
}

/// The extent of a message from `start` whose last part is the length at `at`
/// and as many bytes.
fn find_payload(s: &[u8], start: usize, at: usize, limit: u64) -> (r: Delimited)
    requires
        at <= s@.len(),
    ensures
        extent_of(r) == payload_extent(s@, start as nat, at as nat, limit),
{
    match integer_at(s, at) {
        None => Delimited::More,
        Some((len, next)) => {
            if len > limit {
                Delimited::Bad(Error::FrameTooLarge)
            } else if ((s.len() - next) as u64) < len {
                Delimited::More
            } else {
                Delimited::Done { start, end: next + len as usize }
            }
        },
    }
}

/// Delimit one complete QMux frame at the front of a byte stream (draft-00).
pub fn recv_qmux00_frame(s: &[u8]) -> (r: Delimited)
    ensures
        extent_of(r) == frame_extent(s@),
{
    assert(s@.skip(0) =~= s@);
    let (ty, at): (u64, usize) = match integer_at(s, 0) {
        Some((ty, at)) => (ty, at),
        None => return Delimited::More,
    };
    if STREAM_BASE <= ty && ty < STREAM_BASE + 8 {
        let has_off: bool = ty / 4 % 2 == 1;
        let has_len: bool = ty / 2 % 2 == 1;
        let count: usize = if has_off {
            2
        } else {
            1
        };
        return match skip_integers(s, at, count) {
            None => Delimited::More,
            Some(at) => if has_len {
                find_payload(s, 0, at, MAX_FRAME_PAYLOAD as u64)
            } else {
                Delimited::Bad(Error::Short)
            },
        };
    }
    if ty == CONNECTION_CLOSE || ty == APPLICATION_CLOSE || ty == DATAGRAM_LEN || ty
        == QX_TRANSPORT_PARAMETERS {
        let count: usize = if ty == CONNECTION_CLOSE || ty == APPLICATION_CLOSE {
            2
        } else {
            0
        };
        return match skip_integers(s, at, count) {
            None => Delimited::More,
            Some(at) => find_payload(s, 0, at, MAX_FRAME_SIZE as u64),
        };
    }
    let count: usize = if ty == 0x00 {
        0
    } else if ty == RESET_STREAM {
        3
    } else if ty == STOP_SENDING || ty == MAX_STREAM_DATA || ty == STREAM_DATA_BLOCKED {
        2
    } else if ty == MAX_DATA || ty == MAX_STREAMS_BIDI || ty == MAX_STREAMS_UNI || ty
        == DATA_BLOCKED || ty == STREAMS_BLOCKED_BIDI || ty == STREAMS_BLOCKED_UNI || ty
        == QX_PING_REQUEST || ty == QX_PING_RESPONSE {
        1
    } else {
        // A DATAGRAM without length among them: it can't be delimited here.
        return Delimited::Bad(Error::InvalidFrameType(ty));
    };
    match skip_integers(s, at, count) {
        None => Delimited::More,
        Some(end) => Delimited::Done { start: 0, end },
    }
}

/// Delimit one QMux record at the front of a byte stream (draft-01). The message
/// is its payload: frames concatenated.
pub fn recv_record(s: &[u8], our_max_record_size: u64) -> (r: Delimited)
    ensures
        extent_of(r) == record_extent(s@, our_max_record_size),
{
    assert(s@.skip(0) =~= s@);
    match integer_at(s, 0) {
        None => Delimited::More,
        Some((size, at)) => {
            if size > our_max_record_size {
                Delimited::Bad(Error::FrameTooLarge)
            } else if ((s.len() - at) as u64) < size {
                Delimited::More
            } else {
                Delimited::Done { start: at, end: at + size as usize }
            }
        },
    }
}

/// What goes on the wire ahead of an encoded message: its size for draft-01,
/// whose frames travel inside size-prefixed records, and nothing otherwise.
pub fn record_header(data: &Bytes, version: Version) -> (r: Result<Bytes, Error>)
    ensures
        match r {
            Ok(b) => if version is QMux01 {
                contents(*data).len() <= VARINT_MAX && contents(b) == encoding(
                    contents(*data).len() as u64,
                )
            } else {
                contents(b) == Seq::<u8>::empty()
            },
            Err(e) => version is QMux01 && contents(*data).len() > VARINT_MAX
                && e is FlowControlError,
        },
{
    let mut buf = BytesMut::new();
    if version == Version::QMux01 {
        put_value(&mut buf, data.len() as u64)?;
        assert(written(buf) =~= encoding(contents(*data).len() as u64));
    }
    Ok(buf.freeze())
}

/// The receiving half of a byte stream that speaks QMux: bytes go in as they
/// arrive, and complete messages come out in order.
pub struct StreamReader {
    version: Version,
    our_max_record_size: u64,
    buffer: BytesMut,
    failed: bool,
}

impl StreamReader {
    /// The version spoken.
    pub closed spec fn version(self) -> Version {
        self.version
    }

    /// The largest draft-01 record that is accepted.
    pub closed spec fn limit(self) -> u64 {
        self.our_max_record_size
    }

    /// The bytes that arrived and were not handed out.
    pub closed spec fn pending(self) -> Seq<u8> {
        written(self.buffer)
    }

    /// Whether an error was handed out, after which there is nothing more.
    pub closed spec fn failed(self) -> bool {
        self.failed
    }

    /// Read a byte stream speaking QMux `version`.
    ///
    /// `our_max_record_size` bounds incoming draft-01 records; it is ignored for
    /// draft-00 and the legacy `webtransport` wire format.
    pub fn new(version: Version, our_max_record_size: u64) -> (r: StreamReader)
        ensures
            r.version() == version,
            r.limit() == our_max_record_size,
            r.pending() == Seq::<u8>::empty(),
            !r.failed(),
    {
        StreamReader { version, our_max_record_size, buffer: BytesMut::new(), failed: false }
    }

    /// Take in what arrived.
    pub fn feed(&mut self, data: &[u8])
        ensures
            final(self).pending() == old(self).pending() + data@,
            final(self).version() == old(self).version(),
            final(self).limit() == old(self).limit(),
            final(self).failed() == old(self).failed(),
    {
        put_slice(&mut self.buffer, data);
    }

    /// The next complete message, or `None` where more bytes have to arrive
    /// first. After an error the stream is closed.
    pub fn recv(&mut self) -> (r: Option<Result<Bytes, Error>>)
        ensures
            final(self).version() == old(self).version(),
            final(self).limit() == old(self).limit(),
            if old(self).failed() {
                &&& r matches Some(Err(e))
                &&& e is Closed
                &&& final(self).failed()
                &&& final(self).pending() == old(self).pending()
            } else {
                match message_extent(old(self).pending(), old(self).version(), old(self).limit()) {
                    Extent::More => {
                        &&& r is None
                        &&& !final(self).failed()
                        &&& final(self).pending() == old(self).pending()
                    },
                    Extent::Done { start, end } => {
                        &&& r matches Some(Ok(b))
                        &&& contents(b) == old(self).pending().subrange(start as int, end as int)
                        &&& !final(self).failed()
                        &&& final(self).pending() == old(self).pending().skip(end as int)
                    },
                    Extent::Bad(e) => {
                        &&& r matches Some(Err(x))
                        &&& x@ == e
                        &&& final(self).failed()
                        &&& final(self).pending() == old(self).pending()
                    },
                }
            },
    {
        if self.failed {
            return Some(Err(Error::Closed));
        }
        let ghost before = self.pending();
        proof {
            lemma_extent_bounds(before, self.version, self.our_max_record_size);
        }
        let found = match self.version {
            Version::QMux01 => recv_record(written_slice(&self.buffer), self.our_max_record_size),
            Version::QMux00 | Version::WebTransport => recv_qmux00_frame(
                written_slice(&self.buffer),
            ),
        };
        match found {
            Delimited::More => None,
            Delimited::Bad(e) => {
                self.failed = true;
                Some(Err(e))
            },
            Delimited::Done { start, end } => {
                let mut message = self.buffer.split_to(end).freeze();
                let _header = message.split_to(start);
                assert(contents(message) =~= before.subrange(start as int, end as int));
                Some(Ok(message))
            },
        }
    }
}

/// Law: a record is refused as soon as its size is known, where that is over the
/// limit, and waited for otherwise. Only draft-01 has records; of the others each
/// message is one frame, whatever the limit.
pub proof fn lemma_record_limit(size: u64, rest: Seq<u8>, limit: u64, s: Seq<u8>)
    requires
        size <= VARINT_MAX,
    ensures
        ({
            let e = message_extent(encoding(size) + rest, Version::QMux01, limit);
            let n = encoding(size).len();
            &&& size > limit ==> e == Extent::Bad(ErrorView::FrameTooLarge)
            &&& size <= limit && rest.len() < size ==> e is More
            &&& size <= limit && rest.len() >= size ==> e == (Extent::Done {
                start: n,
                end: n + size as nat,
            })
            &&& message_extent(Seq::empty(), Version::QMux01, limit) is More
            &&& message_extent(Seq::empty(), Version::QMux00, limit) is More
            &&& message_extent(s, Version::QMux00, limit) == frame_extent(s)
            &&& message_extent(s, Version::WebTransport, limit) == frame_extent(s)
        }),
{
    lemma_round_trip(size, rest);
}

proof fn lemma_type_here(ty: u64, rest: Seq<u8>)
    requires
        ty <= VARINT_MAX,
    ensures
        parse(encoding(ty) + rest) == Some((ty, encoding(ty).len())),
        encoding(ty).len() > 0,
{
    lemma_round_trip(ty, rest);
}

/// Law: on a byte stream a frame of a type that does not exist is refused, and so is a
/// datagram without a length.
pub proof fn lemma_unknown_refused(ty: u64, rest: Seq<u8>)
    requires
        ty <= VARINT_MAX,
        1 <= ty <= 3 || ty == 6 || ty == 7 || 0x18 <= ty <= 0x1b || 0x1e <= ty <= 0x30 || 0x32 <= ty
            < 0x348c67529ef8c7bd || 0x348c67529ef8c7be < ty < 0x3f5153300d0a0d0a || ty
            > 0x3f5153300d0a0d0a,
    ensures
        frame_extent(encoding(ty) + rest) == Extent::Bad(ErrorView::InvalidFrameType(ty)),
{
    lemma_type_here(ty, rest);
}

proof fn lemma_unbounded_refused(ty: u64, list: Seq<u64>, rest: Seq<u8>)
    requires
        ty <= VARINT_MAX,
        forall|i: int| 0 <= i < list.len() ==> #[trigger] list[i] <= VARINT_MAX,
        layout(ty) == Layout::Unbounded(list.len()),
    ensures
        frame_extent(encoding(ty) + integers_encoding(list) + rest) == Extent::Bad(
            ErrorView::Short,
        ),
{
    let s = encoding(ty) + integers_encoding(list) + rest;
    assert(s =~= encoding(ty) + (integers_encoding(list) + rest));
    lemma_type_here(ty, integers_encoding(list) + rest);
    lemma_integers_skip(encoding(ty), list, rest);
}

/// Law: stream data without a length has no end on a byte stream and is refused, with
/// an offset and without one.
pub proof fn lemma_open_ended_refused(id: u64, offset: u64, fin: bool, rest: Seq<u8>)
    requires
        id <= VARINT_MAX,
        offset <= VARINT_MAX,
    ensures
        ({
            let last = if fin {
                1int
            } else {
                0int
            };
            &&& frame_extent(encoding((0x08 + last) as u64) + encoding(id) + rest) == Extent::Bad(
                ErrorView::Short,
            )
            &&& frame_extent(
                encoding((0x0c + last) as u64) + (encoding(id) + encoding(offset)) + rest,
            ) == Extent::Bad(ErrorView::Short)
        }),
{
    let last = if fin {
        1int
    } else {
        0int
    };
    reveal_with_fuel(integers_encoding, 3);
    let two = seq![id, offset];
    assert(two.drop_first() =~= seq![offset]);
    assert(integers_encoding(seq![id]) =~= encoding(id));
    assert(integers_encoding(two) =~= encoding(id) + encoding(offset));
    lemma_unbounded_refused((0x08 + last) as u64, seq![id], rest);
    lemma_unbounded_refused((0x0c + last) as u64, two, rest);
}

/// The integers, the length and what follows, for a frame with a payload.
proof fn lemma_payload_at(ty: u64, list: Seq<u64>, len: u64, rest: Seq<u8>, limit: u64)
    requires
        ty <= VARINT_MAX,
        len <= VARINT_MAX,
        forall|i: int| 0 <= i < list.len() ==> #[trigger] list[i] <= VARINT_MAX,
        layout(ty) == Layout::Payload(list.len(), limit),
    ensures
        ({
            let head = encoding(ty) + integers_encoding(list) + encoding(len);
            let e = frame_extent(head + rest);
            &&& len > limit ==> e == Extent::Bad(ErrorView::FrameTooLarge)
            &&& len <= limit && rest.len() < len ==> e is More
            &&& len <= limit && rest.len() >= len ==> e == (Extent::Done {
                start: 0,
                end: head.len() + len as nat,
            })
        }),
{
    let pre = encoding(ty);
    let mid = integers_encoding(list);
    let tail = encoding(len) + rest;
    let s = pre + mid + encoding(len) + rest;
    assert(s =~= pre + mid + tail);
    assert(s =~= pre + (mid + tail));
    lemma_type_here(ty, mid + tail);
    lemma_integers_skip(pre, list, tail);
    assert(s.skip((pre + mid).len() as int) =~= tail);
    lemma_round_trip(len, rest);
}

/// Law: the data of a stream, with an offset or without, is at most 16360 bytes long
/// in one frame, and waited for until all of it is there.
pub proof fn lemma_stream_payload(id: u64, offset: u64, fin: bool, len: u64, rest: Seq<u8>)
    requires
        id <= VARINT_MAX,
        offset <= VARINT_MAX,
        len <= VARINT_MAX,
    ensures
        ({
            let last = if fin {
                1int
            } else {
                0int
            };
            let plain = encoding((0x0a + last) as u64) + encoding(id) + encoding(len);
            let placed = encoding((0x0e + last) as u64) + (encoding(id) + encoding(offset))
                + encoding(len);
            &&& len > 16360 ==> frame_extent(plain + rest) == Extent::Bad(
                ErrorView::FrameTooLarge,
            ) && frame_extent(placed + rest) == Extent::Bad(ErrorView::FrameTooLarge)
            &&& len <= 16360 && rest.len() < len ==> frame_extent(plain + rest) is More
                && frame_extent(placed + rest) is More
            &&& len <= 16360 && rest.len() >= len ==> frame_extent(plain + rest) == (Extent::Done {
                start: 0,
                end: plain.len() + len as nat,
            }) && frame_extent(placed + rest) == (Extent::Done {
                start: 0,
                end: placed.len() + len as nat,
            })
        }),
{
    let last = if fin {
        1int
    } else {
        0int
    };
    reveal_with_fuel(integers_encoding, 3);
    let two = seq![id, offset];
    assert(two.drop_first() =~= seq![offset]);
    assert(integers_encoding(seq![id]) =~= encoding(id));
    assert(integers_encoding(two) =~= encoding(id) + encoding(offset));
    lemma_payload_at((0x0a + last) as u64, seq![id], len, rest, 16360);
    lemma_payload_at((0x0e + last) as u64, two, len, rest, 16360);
}

/// Law: a reason, parameters and a datagram are at most 16384 bytes long in one frame,
/// and waited for until all of it is there.
pub proof fn lemma_other_payloads(ty: u64, code: u64, frame: u64, len: u64, rest: Seq<u8>)
    requires
        code <= VARINT_MAX,
        frame <= VARINT_MAX,
        len <= VARINT_MAX,
    ensures
        ({
            let head = if ty == 0x1c || ty == 0x1d {
                encoding(ty) + (encoding(code) + encoding(frame)) + encoding(len)
            } else {
                encoding(ty) + encoding(len)
            };
            ty == 0x1c || ty == 0x1d || ty == 0x31 || ty == 0x3f5153300d0a0d0a ==> {
                &&& len > 16384 ==> frame_extent(head + rest) == Extent::Bad(
                    ErrorView::FrameTooLarge,
                )
                &&& len <= 16384 && rest.len() < len ==> frame_extent(head + rest) is More
                &&& len <= 16384 && rest.len() >= len ==> frame_extent(head + rest)
                    == (Extent::Done { start: 0, end: head.len() + len as nat })
            }
        }),
{
    reveal_with_fuel(integers_encoding, 3);
    if ty == 0x1c || ty == 0x1d {
        let two = seq![code, frame];
        assert(two.drop_first() =~= seq![frame]);
        assert(integers_encoding(two) =~= encoding(code) + encoding(frame));
        lemma_payload_at(ty, two, len, rest, 16384);
    } else if ty == 0x31 || ty == 0x3f5153300d0a0d0a {
        let none = Seq::<u64>::empty();
        assert(encoding(ty) + integers_encoding(none) + encoding(len) =~= encoding(ty) + encoding(
            len,
        ));
        lemma_payload_at(ty, none, len, rest, 16384);
    }
}

/// Law: the payloads that a byte stream delivers.
pub proof fn lemma_payload_limits(f: FrameView)
    ensures
        payload_fits(f) == match f {
            FrameView::Stream { data, .. } => data.len() <= 16360,
            FrameView::Datagram { data, .. } => data.len() <= 16384,
            FrameView::ConnectionClose { reason, .. } => encode_utf8(reason).len() <= 16384,
            FrameView::TransportParameters(p) => params_encoding(p).len() <= 16384,
            _ => true,
        },
{
}

} // verus!
