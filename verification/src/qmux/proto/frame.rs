//! Frames: what the two sides of a connection say to each other.

use bytes::{Bytes, BytesMut};
use vstd::prelude::*;
use vstd::utf8::{encode_utf8, encode_utf8_decode_utf8, encode_utf8_valid_utf8};

use super::params::{
    DEFAULT_MAX_RECORD_SIZE, ParamsView, TransportParams, decoded_params, lemma_params_round_trip,
    params_encoding, varint_size,
};
use super::varint::{VARINT_MAX, VarInt, encoding, lemma_round_trip, size_of_varint};
use super::version::Version;
use super::wire::{
    lemma_one, lemma_one_more, lemma_one_shrinks, lemma_prefixed, lemma_prefixed_more, one,
    prefixed, prefixed_encoding, put_prefixed, put_value, read_one, read_prefixed, read_three,
    read_two, three, two,
};
use crate::buffer::{as_slice, contents, get_u8, put_slice, put_u8, written};
use crate::qmux::error::{Error, ErrorView};
use crate::qmux::stream::StreamId;
use crate::text::{from_utf8_lossy, read_text};

verus! {

/// RESET_STREAM.
pub const RESET_STREAM: u64 = 0x04;

/// STOP_SENDING.
pub const STOP_SENDING: u64 = 0x05;

/// The first of the eight STREAM types.
pub const STREAM_BASE: u64 = 0x08;

/// MAX_DATA.
pub const MAX_DATA: u64 = 0x10;

/// MAX_STREAM_DATA.
pub const MAX_STREAM_DATA: u64 = 0x11;

/// MAX_STREAMS of bidirectional streams.
pub const MAX_STREAMS_BIDI: u64 = 0x12;

/// MAX_STREAMS of unidirectional streams.
pub const MAX_STREAMS_UNI: u64 = 0x13;

/// DATA_BLOCKED.
pub const DATA_BLOCKED: u64 = 0x14;

/// STREAM_DATA_BLOCKED.
pub const STREAM_DATA_BLOCKED: u64 = 0x15;

/// STREAMS_BLOCKED of bidirectional streams.
pub const STREAMS_BLOCKED_BIDI: u64 = 0x16;

/// STREAMS_BLOCKED of unidirectional streams.
pub const STREAMS_BLOCKED_UNI: u64 = 0x17;

/// CONNECTION_CLOSE by the transport.
pub const CONNECTION_CLOSE: u64 = 0x1c;

/// CONNECTION_CLOSE by the application.
pub const APPLICATION_CLOSE: u64 = 0x1d;

/// DATAGRAM that runs to the end of its record.
pub const DATAGRAM: u64 = 0x30;

/// DATAGRAM behind its length.
pub const DATAGRAM_LEN: u64 = 0x31;

/// QX_TRANSPORT_PARAMETERS; with its length tag it reads `"\xffQS0\r\n\r\n"`.
pub const QX_TRANSPORT_PARAMETERS: u64 = 0x3f5153300d0a0d0a;

/// QX_PING that asks for an answer (draft-01).
pub const QX_PING_REQUEST: u64 = 0x348c67529ef8c7bd;

/// QX_PING that is an answer (draft-01).
pub const QX_PING_RESPONSE: u64 = 0x348c67529ef8c7be;

/// Stream data frame carrying payload bytes for a specific stream.
#[derive(Debug, Clone)]
pub struct Stream {
    /// The stream this data belongs to.
    pub id: StreamId,
    /// The payload bytes.
    pub data: Bytes,
    /// Whether this is the final frame on the stream.
    pub fin: bool,
}

/// Abruptly terminates the sending side of a stream with an error code.
#[derive(Debug, Clone)]
pub struct ResetStream {
    /// The stream being reset.
    pub id: StreamId,
    /// Application-defined error code.
    pub code: VarInt,
    /// Total bytes sent on the stream before the reset (for flow control accounting).
    pub final_size: u64,
}

/// Requests that the peer stop sending on a stream.
#[derive(Debug, Clone)]
pub struct StopSending {
    /// The stream to stop.
    pub id: StreamId,
    /// Application-defined error code.
    pub code: VarInt,
}

/// Closes the entire connection with an error code and reason.
#[derive(Debug, Clone)]
pub struct ConnectionClose {
    /// Application-defined error code.
    pub code: VarInt,
    /// Human-readable reason for closing.
    pub reason: String,
}

/// A QX_PING frame for connection liveness probing (draft-01).
#[derive(Debug, Clone)]
pub struct Ping {
    /// Monotonically increasing sequence number.
    pub sequence: u64,
    /// Whether this is a response (true) or request (false).
    pub response: bool,
}

/// An unreliable message (RFC 9221, draft-01 only).
#[derive(Debug, Clone)]
pub struct Datagram {
    /// The payload bytes.
    pub data: Bytes,
    /// Whether the payload stood behind its length on the wire.
    pub length_prefixed: bool,
}

/// A QUIC-compatible frame for multiplexed transport.
#[derive(Debug, Clone)]
pub enum Frame {
    Padding,
    ResetStream(ResetStream),
    StopSending(StopSending),
    ConnectionClose(ConnectionClose),
    Stream(Stream),
    MaxData(u64),
    MaxStreamData { id: StreamId, max: u64 },
    MaxStreamsBidi(u64),
    MaxStreamsUni(u64),
    DataBlocked(u64),
    StreamDataBlocked { id: StreamId, limit: u64 },
    StreamsBlockedBidi(u64),
    StreamsBlockedUni(u64),
    TransportParameters(TransportParams),
    Ping(Ping),
    Datagram(Datagram),
}

/// A [`Frame`] over plain values.
pub enum FrameView {
    Padding,
    ResetStream { id: u64, code: u64, final_size: u64 },
    StopSending { id: u64, code: u64 },
    ConnectionClose { code: u64, reason: Seq<char> },
    Stream { id: u64, data: Seq<u8>, fin: bool },
    MaxData(u64),
    MaxStreamData { id: u64, max: u64 },
    MaxStreamsBidi(u64),
    MaxStreamsUni(u64),
    DataBlocked(u64),
    StreamDataBlocked { id: u64, limit: u64 },
    StreamsBlockedBidi(u64),
    StreamsBlockedUni(u64),
    TransportParameters(ParamsView),
    Ping { sequence: u64, response: bool },
    Datagram { data: Seq<u8>, length_prefixed: bool },
}

impl View for Frame {
    type V = FrameView;

    open spec fn view(&self) -> FrameView {
        match self {
            Frame::Padding => FrameView::Padding,
            Frame::ResetStream(r) => FrameView::ResetStream {
                id: r.id@,
                code: r.code@,
                final_size: r.final_size,
            },
            Frame::StopSending(s) => FrameView::StopSending { id: s.id@, code: s.code@ },
            Frame::ConnectionClose(c) => FrameView::ConnectionClose {
                code: c.code@,
                reason: c.reason@,
            },
            Frame::Stream(s) => FrameView::Stream {
                id: s.id@,
                data: contents(s.data),
                fin: s.fin,
            },
            Frame::MaxData(max) => FrameView::MaxData(*max),
            Frame::MaxStreamData { id, max } => FrameView::MaxStreamData { id: id@, max: *max },
            Frame::MaxStreamsBidi(max) => FrameView::MaxStreamsBidi(*max),
            Frame::MaxStreamsUni(max) => FrameView::MaxStreamsUni(*max),
            Frame::DataBlocked(limit) => FrameView::DataBlocked(*limit),
            Frame::StreamDataBlocked { id, limit } => FrameView::StreamDataBlocked {
                id: id@,
                limit: *limit,
            },
            Frame::StreamsBlockedBidi(limit) => FrameView::StreamsBlockedBidi(*limit),
            Frame::StreamsBlockedUni(limit) => FrameView::StreamsBlockedUni(*limit),
            Frame::TransportParameters(p) => FrameView::TransportParameters(p@),
            Frame::Ping(p) => FrameView::Ping { sequence: p.sequence, response: p.response },
            Frame::Datagram(d) => FrameView::Datagram {
                data: contents(d.data),
                length_prefixed: d.length_prefixed,
            },
        }
    }
}

/// The frame over plain values, where there is one.
pub open spec fn view_of(frame: Option<Frame>) -> Option<FrameView> {
    match frame {
        Some(f) => Some(f@),
        None => None,
    }
}

/// The frames over plain values.
pub open spec fn views(frames: Seq<Frame>) -> Seq<FrameView> {
    Seq::new(frames.len(), |i: int| frames[i]@)
}

impl FrameView {
    /// Whether a version has this frame. Padding, pings and datagrams came with
    /// draft-01, and the legacy format has neither flow control nor parameters.
    pub open spec fn supported(self, version: Version) -> bool {
        match version {
            Version::WebTransport => self is Stream || self is ResetStream || self is StopSending
                || self is ConnectionClose,
            Version::QMux00 => !(self is Padding || self is Ping || self is Datagram),
            Version::QMux01 => true,
        }
    }

    /// Whether every number of the frame fits the wire format.
    pub open spec fn encodable(self) -> bool {
        match self {
            FrameView::Padding => true,
            FrameView::ResetStream { id, code, final_size } => id <= VARINT_MAX && code
                <= VARINT_MAX && final_size <= VARINT_MAX,
            FrameView::StopSending { id, code } => id <= VARINT_MAX && code <= VARINT_MAX,
            FrameView::ConnectionClose { code, reason } => code <= VARINT_MAX && encode_utf8(
                reason,
            ).len() <= VARINT_MAX,
            FrameView::Stream { id, data, .. } => id <= VARINT_MAX && data.len() <= VARINT_MAX,
            FrameView::MaxData(max) => max <= VARINT_MAX,
            FrameView::MaxStreamData { id, max } => id <= VARINT_MAX && max <= VARINT_MAX,
            FrameView::MaxStreamsBidi(max) => max <= VARINT_MAX,
            FrameView::MaxStreamsUni(max) => max <= VARINT_MAX,
            FrameView::DataBlocked(limit) => limit <= VARINT_MAX,
            FrameView::StreamDataBlocked { id, limit } => id <= VARINT_MAX && limit <= VARINT_MAX,
            FrameView::StreamsBlockedBidi(limit) => limit <= VARINT_MAX,
            FrameView::StreamsBlockedUni(limit) => limit <= VARINT_MAX,
            FrameView::TransportParameters(p) => p.encodable() && params_encoding(p).len()
                <= VARINT_MAX,
            FrameView::Ping { sequence, .. } => sequence <= VARINT_MAX,
            FrameView::Datagram { data, .. } => data.len() <= VARINT_MAX,
        }
    }
}

impl FrameView {
    /// Whether every number that a version puts on the wire fits there. The legacy
    /// format has neither a final size nor lengths.
    pub open spec fn encodable_in(self, version: Version) -> bool {
        if version is WebTransport {
            match self {
                FrameView::ResetStream { id, code, .. } => id <= VARINT_MAX && code <= VARINT_MAX,
                FrameView::ConnectionClose { code, .. } => code <= VARINT_MAX,
                FrameView::Stream { id, .. } => id <= VARINT_MAX,
                _ => self.encodable(),
            }
        } else {
            self.encodable()
        }
    }
}

/// A frame in a QMux format: its type and then its fields. Stream data and
/// datagrams always stand behind their length, and never carry an offset.
pub open spec fn qmux_encoding(f: FrameView) -> Seq<u8> {
    match f {
        FrameView::Padding => encoding(0),
        FrameView::ResetStream { id, code, final_size } => encoding(RESET_STREAM) + encoding(id)
            + encoding(code) + encoding(final_size),
        FrameView::StopSending { id, code } => encoding(STOP_SENDING) + encoding(id) + encoding(
            code,
        ),
        FrameView::ConnectionClose { code, reason } => encoding(APPLICATION_CLOSE) + encoding(code)
            + encoding(0) + prefixed_encoding(encode_utf8(reason)),
        FrameView::Stream { id, data, fin } => encoding(
            if fin {
                0x0b
            } else {
                0x0a
            },
        ) + encoding(id) + prefixed_encoding(data),
        FrameView::MaxData(max) => encoding(MAX_DATA) + encoding(max),
        FrameView::MaxStreamData { id, max } => encoding(MAX_STREAM_DATA) + encoding(id) + encoding(
            max,
        ),
        FrameView::MaxStreamsBidi(max) => encoding(MAX_STREAMS_BIDI) + encoding(max),
        FrameView::MaxStreamsUni(max) => encoding(MAX_STREAMS_UNI) + encoding(max),
        FrameView::DataBlocked(limit) => encoding(DATA_BLOCKED) + encoding(limit),
        FrameView::StreamDataBlocked { id, limit } => encoding(STREAM_DATA_BLOCKED) + encoding(id)
            + encoding(limit),
        FrameView::StreamsBlockedBidi(limit) => encoding(STREAMS_BLOCKED_BIDI) + encoding(limit),
        FrameView::StreamsBlockedUni(limit) => encoding(STREAMS_BLOCKED_UNI) + encoding(limit),
        FrameView::TransportParameters(p) => encoding(QX_TRANSPORT_PARAMETERS) + prefixed_encoding(
            params_encoding(p),
        ),
        FrameView::Ping { sequence, response } => encoding(
            if response {
                QX_PING_RESPONSE
            } else {
                QX_PING_REQUEST
            },
        ) + encoding(sequence),
        FrameView::Datagram { data, .. } => encoding(DATAGRAM_LEN) + prefixed_encoding(data),
    }
}

/// A frame in the legacy format: one byte of type, and then the fields up to the
/// end of the message. It has no final size.
pub open spec fn wt_encoding(f: FrameView) -> Seq<u8> {
    match f {
        FrameView::Stream { id, data, fin } => seq![
            if fin {
                0x09u8
            } else {
                0x08u8
            },
        ] + encoding(id) + data,
        FrameView::ResetStream { id, code, .. } => seq![0x04u8] + encoding(id) + encoding(code),
        FrameView::StopSending { id, code } => seq![0x05u8] + encoding(id) + encoding(code),
        FrameView::ConnectionClose { code, reason } => seq![0x1du8] + encoding(code) + encode_utf8(
            reason,
        ),
        _ => Seq::empty(),
    }
}

/// A STREAM frame of type `ty` after its type. Bit 2 says that an offset is
/// there, bit 1 that a length is, and bit 0 that the stream ends. Without a
/// length the data runs to the end of the input.
pub open spec fn stream_body(ty: u64, s: Seq<u8>) -> Option<(FrameView, Seq<u8>)> {
    match one(s) {
        None => None,
        Some((id, s)) => {
            let fin = ty % 2 == 1;
            match if ty / 4 % 2 == 1 {
                one(s)
            } else {
                Some((0, s))
            } {
                None => None,
                Some((_, s)) => if ty / 2 % 2 == 1 {
                    match prefixed(s) {
                        None => None,
                        Some((data, s)) => Some((FrameView::Stream { id, data, fin }, s)),
                    }
                } else {
                    Some((FrameView::Stream { id, data: s, fin }, Seq::empty()))
                },
            }
        },
    }
}

/// The fields of a frame of type `ty`, or `None` where the input ends too early.
/// Only for types in [`has_fields`].
pub open spec fn fields(ty: u64, s: Seq<u8>) -> Option<(FrameView, Seq<u8>)> {
    if STREAM_BASE <= ty < STREAM_BASE + 8 {
        stream_body(ty, s)
    } else if ty == RESET_STREAM {
        match three(s) {
            Some((id, code, final_size, s)) => Some(
                (FrameView::ResetStream { id, code, final_size }, s),
            ),
            None => None,
        }
    } else if ty == STOP_SENDING {
        match two(s) {
            Some((id, code, s)) => Some((FrameView::StopSending { id, code }, s)),
            None => None,
        }
    } else if ty == CONNECTION_CLOSE || ty == APPLICATION_CLOSE {
        match two(s) {
            Some((code, _, s)) => match prefixed(s) {
                Some((reason, s)) => Some(
                    (FrameView::ConnectionClose { code, reason: read_text(reason) }, s),
                ),
                None => None,
            },
            None => None,
        }
    } else if ty == MAX_STREAM_DATA {
        match two(s) {
            Some((id, max, s)) => Some((FrameView::MaxStreamData { id, max }, s)),
            None => None,
        }
    } else if ty == STREAM_DATA_BLOCKED {
        match two(s) {
            Some((id, limit, s)) => Some((FrameView::StreamDataBlocked { id, limit }, s)),
            None => None,
        }
    } else if ty == DATAGRAM {
        Some((FrameView::Datagram { data: s, length_prefixed: false }, Seq::empty()))
    } else if ty == DATAGRAM_LEN {
        match prefixed(s) {
            Some((data, s)) => Some((FrameView::Datagram { data, length_prefixed: true }, s)),
            None => None,
        }
    } else {
        match one(s) {
            Some((v, s)) => Some((single_value_frame(ty, v), s)),
            None => None,
        }
    }
}

/// The frame that holds one number and nothing else.
pub open spec fn single_value_frame(ty: u64, v: u64) -> FrameView {
    if ty == MAX_DATA {
        FrameView::MaxData(v)
    } else if ty == MAX_STREAMS_BIDI {
        FrameView::MaxStreamsBidi(v)
    } else if ty == MAX_STREAMS_UNI {
        FrameView::MaxStreamsUni(v)
    } else if ty == DATA_BLOCKED {
        FrameView::DataBlocked(v)
    } else if ty == STREAMS_BLOCKED_BIDI {
        FrameView::StreamsBlockedBidi(v)
    } else if ty == STREAMS_BLOCKED_UNI {
        FrameView::StreamsBlockedUni(v)
    } else {
        FrameView::Ping { sequence: v, response: ty == QX_PING_RESPONSE }
    }
}

/// Whether `ty` is a frame type with plain fields.
pub open spec fn has_fields(ty: u64) -> bool {
    ||| RESET_STREAM <= ty <= STOP_SENDING
    ||| STREAM_BASE <= ty <= STREAMS_BLOCKED_UNI
    ||| ty == CONNECTION_CLOSE
    ||| ty == APPLICATION_CLOSE
    ||| ty == DATAGRAM
    ||| ty == DATAGRAM_LEN
    ||| ty == QX_PING_REQUEST
    ||| ty == QX_PING_RESPONSE
}

/// The first QMux frame in `s` and what follows it. Padding is no frame.
pub open spec fn frame_in(s: Seq<u8>) -> Result<(Option<FrameView>, Seq<u8>), ErrorView> {
    match one(s) {
        None => Err(ErrorView::Short),
        Some((ty, s)) => if ty == 0 {
            Ok((None, s))
        } else if ty == QX_TRANSPORT_PARAMETERS {
            match prefixed(s) {
                None => Err(ErrorView::Short),
                Some((value, s)) => match decoded_params(value) {
                    Ok(p) => Ok((Some(FrameView::TransportParameters(p)), s)),
                    Err(e) => Err(e),
                },
            }
        } else if has_fields(ty) {
            match fields(ty, s) {
                Some((f, s)) => Ok((Some(f), s)),
                None => Err(ErrorView::Short),
            }
        } else {
            Err(ErrorView::InvalidFrameType(ty))
        },
    }
}

/// The frames of a record: one after the other, up to its end.
pub open spec fn frames_in(s: Seq<u8>) -> Result<Seq<FrameView>, ErrorView>
    decreases s.len(),
{
    if s.len() == 0 {
        Ok(Seq::empty())
    } else {
        match frame_in(s) {
            Err(e) => Err(e),
            Ok((first, rest)) => {
                proof {
                    lemma_frame_shrinks(s);
                }
                match frames_in(rest) {
                    Err(e) => Err(e),
                    Ok(more) => Ok(
                        match first {
                            Some(f) => seq![f] + more,
                            None => more,
                        },
                    ),
                }
            },
        }
    }
}

/// A frame in the legacy format, which takes up the whole message.
pub open spec fn wt_frame_in(s: Seq<u8>) -> Result<FrameView, ErrorView> {
    let ty = s[0];
    let s = s.skip(1);
    if ty == 0x04 {
        match two(s) {
            Some((id, code, _)) => Ok(FrameView::ResetStream { id, code, final_size: 0 }),
            None => Err(ErrorView::Short),
        }
    } else if ty == 0x05 {
        match two(s) {
            Some((id, code, _)) => Ok(FrameView::StopSending { id, code }),
            None => Err(ErrorView::Short),
        }
    } else if ty == 0x08 || ty == 0x09 {
        match one(s) {
            Some((id, data)) => Ok(FrameView::Stream { id, data, fin: ty == 0x09 }),
            None => Err(ErrorView::Short),
        }
    } else if ty == 0x1d {
        match one(s) {
            Some((code, reason)) => Ok(
                FrameView::ConnectionClose { code, reason: read_text(reason) },
            ),
            None => Err(ErrorView::Short),
        }
    } else {
        Err(ErrorView::InvalidFrameType(ty as u64))
    }
}

/// What one message means in a version. Draft-00 knows datagrams but ignores them.
pub open spec fn message_in(s: Seq<u8>, version: Version) -> Result<Option<FrameView>, ErrorView> {
    if s.len() == 0 {
        Err(ErrorView::Short)
    } else if version is WebTransport {
        match wt_frame_in(s) {
            Ok(f) => Ok(Some(f)),
            Err(e) => Err(e),
        }
    } else {
        match frame_in(s) {
            Ok((Some(FrameView::Datagram { .. }), _)) if version is QMux00 => Ok(None),
            Ok((f, _)) => Ok(f),
            Err(e) => Err(e),
        }
    }
}

/// The size of a datagram frame, as far as 64 bits can tell it.
pub open spec fn frame_size_of(len: nat, length_prefixed: bool) -> u64 {
    let size = 1 + (if length_prefixed {
        size_of_varint(len as u64)
    } else {
        0
    }) + len;
    if size <= u64::MAX {
        size as u64
    } else {
        u64::MAX
    }
}

/// Reading a frame consumes at least a byte.
pub proof fn lemma_frame_shrinks(s: Seq<u8>)
    ensures
        frame_in(s) matches Ok((_, rest)) ==> rest.len() < s.len(),
{
    lemma_one_shrinks(s);
    if let Some((ty, s1)) = one(s) {
        lemma_one_shrinks(s1);
        if let Some((_, s2)) = one(s1) {
            lemma_one_shrinks(s2);
            if let Some((_, s3)) = one(s2) {
                lemma_one_shrinks(s3);
            }
        }
    }
}

/// What a frame reads back as: padding is skipped, datagrams come behind their
/// length, and a record size of zero means the default.
pub open spec fn decoded_form(f: FrameView) -> Option<FrameView> {
    match f {
        FrameView::Padding => None,
        FrameView::Datagram { data, .. } => Some(
            FrameView::Datagram { data, length_prefixed: true },
        ),
        FrameView::TransportParameters(p) => Some(
            FrameView::TransportParameters(
                ParamsView {
                    max_record_size: if p.max_record_size == 0 {
                        DEFAULT_MAX_RECORD_SIZE
                    } else {
                        p.max_record_size
                    },
                    ..p
                },
            ),
        ),
        f => Some(f),
    }
}

/// Two integers in a row read back.
proof fn lemma_two(a: u64, b: u64, rest: Seq<u8>)
    requires
        a <= VARINT_MAX,
        b <= VARINT_MAX,
    ensures
        two(encoding(a) + (encoding(b) + rest)) == Some((a, b, rest)),
{
    lemma_one(a, encoding(b) + rest);
    lemma_one(b, rest);
}

/// Three integers in a row read back.
proof fn lemma_three(a: u64, b: u64, c: u64, rest: Seq<u8>)
    requires
        a <= VARINT_MAX,
        b <= VARINT_MAX,
        c <= VARINT_MAX,
    ensures
        three(encoding(a) + (encoding(b) + (encoding(c) + rest))) == Some((a, b, c, rest)),
{
    lemma_two(a, b, encoding(c) + rest);
    lemma_one(c, rest);
}

/// Text reads back as itself.
proof fn lemma_text(text: Seq<char>)
    ensures
        read_text(encode_utf8(text)) == text,
{
    encode_utf8_valid_utf8(text);
    encode_utf8_decode_utf8(text);
}

proof fn lemma_close_round_trip(code: u64, reason: Seq<char>, rest: Seq<u8>)
    requires
        code <= VARINT_MAX,
        encode_utf8(reason).len() <= VARINT_MAX,
    ensures
        fields(
            APPLICATION_CLOSE,
            encoding(code) + (encoding(0) + (prefixed_encoding(encode_utf8(reason)) + rest)),
        ) == Some((FrameView::ConnectionClose { code, reason }, rest)),
{
    let bytes = encode_utf8(reason);
    lemma_two(code, 0, prefixed_encoding(bytes) + rest);
    lemma_prefixed(bytes, rest);
    lemma_text(reason);
}

proof fn lemma_stream_round_trip(id: u64, data: Seq<u8>, fin: bool, rest: Seq<u8>)
    requires
        id <= VARINT_MAX,
        data.len() <= VARINT_MAX,
    ensures
        stream_body(
            if fin {
                0x0b
            } else {
                0x0a
            },
            encoding(id) + (prefixed_encoding(data) + rest),
        ) == Some((FrameView::Stream { id, data, fin }, rest)),
{
    lemma_one(id, prefixed_encoding(data) + rest);
    lemma_prefixed(data, rest);
}

/// The type of a frame.
pub open spec fn type_of(f: FrameView) -> u64 {
    match f {
        FrameView::Padding => 0,
        FrameView::ResetStream { .. } => RESET_STREAM,
        FrameView::StopSending { .. } => STOP_SENDING,
        FrameView::ConnectionClose { .. } => APPLICATION_CLOSE,
        FrameView::Stream { fin, .. } => if fin {
            0x0b
        } else {
            0x0a
        },
        FrameView::MaxData(_) => MAX_DATA,
        FrameView::MaxStreamData { .. } => MAX_STREAM_DATA,
        FrameView::MaxStreamsBidi(_) => MAX_STREAMS_BIDI,
        FrameView::MaxStreamsUni(_) => MAX_STREAMS_UNI,
        FrameView::DataBlocked(_) => DATA_BLOCKED,
        FrameView::StreamDataBlocked { .. } => STREAM_DATA_BLOCKED,
        FrameView::StreamsBlockedBidi(_) => STREAMS_BLOCKED_BIDI,
        FrameView::StreamsBlockedUni(_) => STREAMS_BLOCKED_UNI,
        FrameView::TransportParameters(_) => QX_TRANSPORT_PARAMETERS,
        FrameView::Ping { response, .. } => if response {
            QX_PING_RESPONSE
        } else {
            QX_PING_REQUEST
        },
        FrameView::Datagram { .. } => DATAGRAM_LEN,
    }
}

/// What follows the type of a frame, with `rest` behind it.
spec fn fields_encoding(f: FrameView, rest: Seq<u8>) -> Seq<u8> {
    match f {
        FrameView::Padding => rest,
        FrameView::ResetStream { id, code, final_size } => encoding(id) + (encoding(code) + (
        encoding(final_size) + rest)),
        FrameView::StopSending { id, code } => encoding(id) + (encoding(code) + rest),
        FrameView::ConnectionClose { code, reason } => encoding(code) + (encoding(0) + (
        prefixed_encoding(encode_utf8(reason)) + rest)),
        FrameView::Stream { id, data, .. } => encoding(id) + (prefixed_encoding(data) + rest),
        FrameView::MaxData(v) => encoding(v) + rest,
        FrameView::MaxStreamData { id, max } => encoding(id) + (encoding(max) + rest),
        FrameView::MaxStreamsBidi(v) => encoding(v) + rest,
        FrameView::MaxStreamsUni(v) => encoding(v) + rest,
        FrameView::DataBlocked(v) => encoding(v) + rest,
        FrameView::StreamDataBlocked { id, limit } => encoding(id) + (encoding(limit) + rest),
        FrameView::StreamsBlockedBidi(v) => encoding(v) + rest,
        FrameView::StreamsBlockedUni(v) => encoding(v) + rest,
        FrameView::TransportParameters(p) => prefixed_encoding(params_encoding(p)) + rest,
        FrameView::Ping { sequence, .. } => encoding(sequence) + rest,
        FrameView::Datagram { data, .. } => prefixed_encoding(data) + rest,
    }
}

proof fn lemma_encoding_parts(f: FrameView, rest: Seq<u8>)
    ensures
        qmux_encoding(f) + rest == encoding(type_of(f)) + fields_encoding(f, rest),
{
    assert(qmux_encoding(f) + rest =~= encoding(type_of(f)) + fields_encoding(f, rest));
}

proof fn lemma_fields_round_trip(f: FrameView, rest: Seq<u8>)
    requires
        f.encodable(),
        !(f is Padding),
        !(f is TransportParameters),
    ensures
        has_fields(type_of(f)),
        fields(type_of(f), fields_encoding(f, rest)) == Some((decoded_form(f)->0, rest)),
{
    match f {
        FrameView::ResetStream { id, code, final_size } => {
            lemma_three(id, code, final_size, rest);
        },
        FrameView::StopSending { id, code } => {
            lemma_two(id, code, rest);
        },
        FrameView::ConnectionClose { code, reason } => {
            lemma_close_round_trip(code, reason, rest);
        },
        FrameView::Stream { id, data, fin } => {
            lemma_stream_round_trip(id, data, fin, rest);
        },
        FrameView::MaxStreamData { id, max } => {
            lemma_two(id, max, rest);
        },
        FrameView::StreamDataBlocked { id, limit } => {
            lemma_two(id, limit, rest);
        },
        FrameView::Datagram { data, .. } => {
            lemma_prefixed(data, rest);
        },
        FrameView::MaxData(v) => {
            lemma_one(v, rest);
        },
        FrameView::MaxStreamsBidi(v) => {
            lemma_one(v, rest);
        },
        FrameView::MaxStreamsUni(v) => {
            lemma_one(v, rest);
        },
        FrameView::DataBlocked(v) => {
            lemma_one(v, rest);
        },
        FrameView::StreamsBlockedBidi(v) => {
            lemma_one(v, rest);
        },
        FrameView::StreamsBlockedUni(v) => {
            lemma_one(v, rest);
        },
        FrameView::Ping { sequence, .. } => {
            lemma_one(sequence, rest);
        },
        _ => {},
    }
}

/// Law: a QMux frame reads back as it was written, whatever follows it, and
/// reading stops where it ends.
pub proof fn lemma_frame_round_trip(f: FrameView, rest: Seq<u8>)
    requires
        f.encodable(),
    ensures
        frame_in(qmux_encoding(f) + rest) == Ok::<_, ErrorView>((decoded_form(f), rest)),
{
    lemma_encoding_parts(f, rest);
    lemma_one(type_of(f), fields_encoding(f, rest));
    if let FrameView::TransportParameters(p) = f {
        lemma_prefixed(params_encoding(p), rest);
        lemma_params_round_trip(p);
    } else if !(f is Padding) {
        lemma_fields_round_trip(f, rest);
    }
}

/// Whether a frame of type `ty` runs to the end of the input, as it has no length.
pub open spec fn runs_to_end(ty: u64) -> bool {
    ty == DATAGRAM || STREAM_BASE <= ty < STREAM_BASE + 8 && ty / 2 % 2 == 0
}

/// A frame that is all there reads the same when more follows.
proof fn lemma_frame_more(s: Seq<u8>, more: Seq<u8>)
    requires
        one(s) matches Some((ty, _)) && !runs_to_end(ty),
    ensures
        match frame_in(s) {
            Ok((f, rest)) => frame_in(s + more) == Ok::<_, ErrorView>((f, rest + more)),
            Err(e) => e == ErrorView::Short || frame_in(s + more) == Err::<
                (Option<FrameView>, Seq<u8>),
                _,
            >(e),
        },
{
    lemma_one_more(s, more);
    let (ty, s1) = one(s)->0;
    lemma_one_more(s1, more);
    lemma_prefixed_more(s1, more);
    if let Some((_, s2)) = one(s1) {
        lemma_one_more(s2, more);
        lemma_prefixed_more(s2, more);
        if let Some((_, s3)) = one(s2) {
            lemma_one_more(s3, more);
            lemma_prefixed_more(s3, more);
        }
    }
}

/// Law: a frame that is cut short is told apart from a whole one, wherever it is
/// cut: it reads as too short.
pub proof fn lemma_truncated_frame(f: FrameView, n: int)
    requires
        f.encodable(),
        0 <= n < qmux_encoding(f).len(),
    ensures
        frame_in(qmux_encoding(f).take(n)) == Err::<(Option<FrameView>, Seq<u8>), _>(
            ErrorView::Short,
        ),
{
    let e = qmux_encoding(f);
    let part = e.take(n);
    let more = e.skip(n);
    assert(part + more =~= e);
    assert(e + Seq::<u8>::empty() =~= e);
    lemma_frame_round_trip(f, Seq::empty());
    lemma_encoding_parts(f, Seq::empty());
    lemma_one(type_of(f), fields_encoding(f, Seq::empty()));
    if one(part) is Some {
        lemma_one_more(part, more);
        assert(!runs_to_end(type_of(f)));
        lemma_frame_more(part, more);
        if let Ok((_, rest)) = frame_in(part) {
            assert((rest + more).len() > 0);
        }
    }
}

/// Law: a message in the legacy format reads back as it was written, but for the
/// final size of a reset, which it does not carry.
pub proof fn lemma_wt_round_trip(f: FrameView)
    requires
        f.supported(Version::WebTransport),
        f.encodable_in(Version::WebTransport),
    ensures
        wt_frame_in(wt_encoding(f)) == Ok::<_, ErrorView>(
            match f {
                FrameView::ResetStream { id, code, .. } => FrameView::ResetStream {
                    id,
                    code,
                    final_size: 0,
                },
                f => f,
            },
        ),
{
    let s = wt_encoding(f);
    match f {
        FrameView::Stream { id, data, fin } => {
            assert(s.skip(1) =~= encoding(id) + data);
            lemma_one(id, data);
        },
        FrameView::ResetStream { id, code, .. } => {
            assert(s.skip(1) =~= encoding(id) + (encoding(code) + Seq::empty()));
            lemma_two(id, code, Seq::empty());
        },
        FrameView::StopSending { id, code } => {
            assert(s.skip(1) =~= encoding(id) + (encoding(code) + Seq::empty()));
            lemma_two(id, code, Seq::empty());
        },
        FrameView::ConnectionClose { code, reason } => {
            assert(s.skip(1) =~= encoding(code) + encode_utf8(reason));
            lemma_one(code, encode_utf8(reason));
            lemma_text(reason);
        },
        _ => {},
    }
}

/// Frames in a row, as a record holds them.
pub open spec fn record_encoding(frames: Seq<FrameView>) -> Seq<u8>
    decreases frames.len(),
{
    if frames.len() == 0 {
        Seq::empty()
    } else {
        qmux_encoding(frames[0]) + record_encoding(frames.drop_first())
    }
}

/// What frames in a row read back as.
pub open spec fn decoded_forms(frames: Seq<FrameView>) -> Seq<FrameView>
    decreases frames.len(),
{
    if frames.len() == 0 {
        Seq::empty()
    } else {
        let more = decoded_forms(frames.drop_first());
        match decoded_form(frames[0]) {
            Some(f) => seq![f] + more,
            None => more,
        }
    }
}

/// Law: a record of frames reads back as those frames, in order.
pub proof fn lemma_record_round_trip(frames: Seq<FrameView>)
    requires
        forall|i: int| 0 <= i < frames.len() ==> (#[trigger] frames[i]).encodable(),
    ensures
        frames_in(record_encoding(frames)) == Ok::<_, ErrorView>(decoded_forms(frames)),
    decreases frames.len(),
{
    if frames.len() > 0 {
        let first = frames[0];
        let tail = frames.drop_first();
        assert forall|i: int| 0 <= i < tail.len() implies (#[trigger] tail[i]).encodable() by {
            assert(tail[i] == frames[i + 1]);
        }
        lemma_record_round_trip(tail);
        let rest = record_encoding(tail);
        lemma_frame_round_trip(first, rest);
        lemma_encoding_parts(first, rest);
        lemma_round_trip(type_of(first), Seq::empty());
    }
}

impl Datagram {
    /// The exact size of the frame on the wire: the type byte, the length where
    /// there is one, and the payload.
    pub fn frame_size(&self) -> (r: u64)
        ensures
            r == frame_size_of(contents(self.data).len(), self.length_prefixed),
    {
        let len: u64 = self.data.len() as u64;
        let prefix: u64 = if self.length_prefixed {
            varint_size(len) as u64
        } else {
            0
        };
        len.saturating_add(1 + prefix)
    }
}

impl Frame {
    /// Encode the frame into bytes using the given wire format version.
    ///
    /// For QMux01, this encodes the raw frame without a record wrapper: the
    /// transport layer is responsible for delimiting records (size varint on
    /// TCP/TLS; implicit on WebSocket message boundaries).
    pub fn encode(&self, version: Version) -> (r: Result<Bytes, Error>)
        ensures
            match r {
                Ok(b) => {
                    &&& self@.supported(version)
                    &&& contents(b) == if version is WebTransport {
                        wt_encoding(self@)
                    } else {
                        qmux_encoding(self@)
                    }
                    &&& version.qmux() ==> self@.encodable()
                },
                Err(e) => if !self@.supported(version) {
                    e@ == ErrorView::InvalidFrameType(0)
                } else {
                    version.qmux() && !self@.encodable() && e is FlowControlError
                },
            },
    {
        // Reject QMux01-only frames for older versions so a misrouted call
        // can't accidentally emit draft-01 wire bytes on a draft-00 session.
        if version != Version::QMux01 {
            match self {
                Frame::Padding | Frame::Ping(_) | Frame::Datagram(_) => return Err(
                    Error::InvalidFrameType(0),
                ),
                _ => {},
            }
        }
        let mut buf = BytesMut::new();
        match version {
            Version::WebTransport => self.encode_wt(&mut buf)?,
            Version::QMux00 | Version::QMux01 => self.encode_qmux(&mut buf)?,
        }
        assert(written(buf) =~= if version is WebTransport {
            wt_encoding(self@)
        } else {
            qmux_encoding(self@)
        });
        Ok(buf.freeze())
    }

    fn encode_wt(&self, buf: &mut BytesMut) -> (r: Result<(), Error>)
        ensures
            match r {
                Ok(_) => self@.supported(Version::WebTransport) && written(*final(buf))
                    == written(*old(buf)) + wt_encoding(self@),
                Err(e) => !self@.supported(Version::WebTransport) && e@
                    == ErrorView::InvalidFrameType(0),
            },
    {
        match self {
            Frame::Stream(s) => {
                put_u8(
                    buf,
                    if s.fin {
                        0x09
                    } else {
                        0x08
                    },
                );
                s.id.0.encode(buf);
                put_slice(buf, as_slice(&s.data));
            },
            Frame::ResetStream(r) => {
                put_u8(buf, 0x04);
                r.id.0.encode(buf);
                r.code.encode(buf);
            },
            Frame::StopSending(s) => {
                put_u8(buf, 0x05);
                s.id.0.encode(buf);
                s.code.encode(buf);
            },
            Frame::ConnectionClose(c) => {
                put_u8(buf, 0x1d);
                c.code.encode(buf);
                put_slice(buf, c.reason.as_str().as_bytes());
            },
            // Flow control frames are QMux-only, not valid for WebTransport version
            _ => return Err(Error::InvalidFrameType(0)),
        }
        assert(written(*buf) =~= written(*old(buf)) + wt_encoding(self@));
        Ok(())
    }

    fn encode_qmux(&self, buf: &mut BytesMut) -> (r: Result<(), Error>)
        ensures
            match r {
                Ok(_) => self@.encodable() && written(*final(buf)) == written(*old(buf))
                    + qmux_encoding(self@),
                Err(e) => !self@.encodable() && e is FlowControlError,
            },
    {
        match self {
            Frame::Stream(s) => {
                // Always LEN bit (0x02), never OFF bit. Type = 0x0a | fin_bit
                let frame_type: u32 = if s.fin {
                    0x0b
                } else {
                    0x0a
                };
                VarInt::from_u32(frame_type).encode(buf);
                s.id.0.encode(buf);
                put_prefixed(buf, as_slice(&s.data))?;
            },
            Frame::ResetStream(r) => {
                put_value(buf, RESET_STREAM)?;
                r.id.0.encode(buf);
                r.code.encode(buf);
                put_value(buf, r.final_size)?;
            },
            Frame::StopSending(s) => {
                put_value(buf, STOP_SENDING)?;
                s.id.0.encode(buf);
                s.code.encode(buf);
            },
            Frame::ConnectionClose(c) => {
                put_value(buf, APPLICATION_CLOSE)?;
                c.code.encode(buf);
                // frame_type = 0 (application close)
                VarInt::from_u32(0).encode(buf);
                put_prefixed(buf, c.reason.as_str().as_bytes())?;
            },
            Frame::MaxData(max) => {
                put_value(buf, MAX_DATA)?;
                put_value(buf, *max)?;
            },
            Frame::MaxStreamData { id, max } => {
                put_value(buf, MAX_STREAM_DATA)?;
                id.0.encode(buf);
                put_value(buf, *max)?;
            },
            Frame::MaxStreamsBidi(max) => {
                put_value(buf, MAX_STREAMS_BIDI)?;
                put_value(buf, *max)?;
            },
            Frame::MaxStreamsUni(max) => {
                put_value(buf, MAX_STREAMS_UNI)?;
                put_value(buf, *max)?;
            },
            Frame::DataBlocked(limit) => {
                put_value(buf, DATA_BLOCKED)?;
                put_value(buf, *limit)?;
            },
            Frame::StreamDataBlocked { id, limit } => {
                put_value(buf, STREAM_DATA_BLOCKED)?;
                id.0.encode(buf);
                put_value(buf, *limit)?;
            },
            Frame::StreamsBlockedBidi(limit) => {
                put_value(buf, STREAMS_BLOCKED_BIDI)?;
                put_value(buf, *limit)?;
            },
            Frame::StreamsBlockedUni(limit) => {
                put_value(buf, STREAMS_BLOCKED_UNI)?;
                put_value(buf, *limit)?;
            },
            Frame::TransportParameters(params) => {
                put_value(buf, QX_TRANSPORT_PARAMETERS)?;
                let payload = params.encode()?;
                put_prefixed(buf, as_slice(&payload))?;
            },
            Frame::Padding => {
                VarInt::from_u32(0).encode(buf);
            },
            Frame::Ping(ping) => {
                if ping.response {
                    put_value(buf, QX_PING_RESPONSE)?;
                } else {
                    put_value(buf, QX_PING_REQUEST)?;
                }
                put_value(buf, ping.sequence)?;
            },
            Frame::Datagram(datagram) => {
                // Always the length-prefixed form, so that another frame can
                // follow in the same record.
                put_value(buf, DATAGRAM_LEN)?;
                put_prefixed(buf, as_slice(&datagram.data))?;
            },
        }
        assert(written(*buf) =~= written(*old(buf)) + qmux_encoding(self@));
        Ok(())
    }

    /// Decode a single QMux frame from a buffer, advancing past the consumed bytes.
    ///
    /// A STREAM frame without the LEN bit and a DATAGRAM without a length take up
    /// the rest of the buffer.
    pub fn decode_qmux_one(data: &mut Bytes) -> (r: Result<Option<Frame>, Error>)
        ensures
            match frame_in(contents(*old(data))) {
                Ok((f, rest)) => {
                    &&& r matches Ok(x)
                    &&& view_of(x) == f
                    &&& contents(*final(data)) == rest
                },
                Err(e) => r matches Err(x) && x@ == e,
            },
    {
        let ty: u64 = read_one(data)?.into_inner();

        // PADDING: single zero byte, already consumed
        if ty == 0x00 {
            return Ok(None);
        }
        if ty == QX_TRANSPORT_PARAMETERS {
            let payload = read_prefixed(data)?;
            let params = TransportParams::decode(payload)?;
            return Ok(Some(Frame::TransportParameters(params)));
        }
        if STREAM_BASE <= ty && ty < STREAM_BASE + 8 {
            return Frame::decode_stream(ty, data);
        }
        if ty == RESET_STREAM {
            let (id, code, final_size) = read_three(data)?;
            return Ok(
                Some(
                    Frame::ResetStream(
                        ResetStream {
                            id: StreamId(id),
                            code,
                            final_size: final_size.into_inner(),
                        },
                    ),
                ),
            );
        }
        if ty == STOP_SENDING {
            let (id, code) = read_two(data)?;
            return Ok(Some(Frame::StopSending(StopSending { id: StreamId(id), code })));
        }
        if ty == CONNECTION_CLOSE || ty == APPLICATION_CLOSE {
            let (code, _frame_type) = read_two(data)?;
            let reason = read_prefixed(data)?;
            let reason = from_utf8_lossy(as_slice(&reason));
            return Ok(Some(Frame::ConnectionClose(ConnectionClose { code, reason })));
        }
        if ty == MAX_STREAM_DATA {
            let (id, max) = read_two(data)?;
            return Ok(Some(Frame::MaxStreamData { id: StreamId(id), max: max.into_inner() }));
        }
        if ty == STREAM_DATA_BLOCKED {
            let (id, limit) = read_two(data)?;
            return Ok(
                Some(Frame::StreamDataBlocked { id: StreamId(id), limit: limit.into_inner() }),
            );
        }
        if ty == DATAGRAM {
            let n: usize = data.len();
            let ghost before = contents(*data);
            let payload = data.split_to(n);
            assert(contents(payload) =~= before);
            assert(contents(*data) =~= Seq::empty());
            return Ok(Some(Frame::Datagram(Datagram { data: payload, length_prefixed: false })));
        }
        if ty == DATAGRAM_LEN {
            let payload = read_prefixed(data)?;
            return Ok(Some(Frame::Datagram(Datagram { data: payload, length_prefixed: true })));
        }
        Frame::decode_single(ty, data)
    }

    /// The fields of a STREAM frame.
    fn decode_stream(ty: u64, data: &mut Bytes) -> (r: Result<Option<Frame>, Error>)
        requires
            STREAM_BASE <= ty < STREAM_BASE + 8,
        ensures
            match stream_body(ty, contents(*old(data))) {
                Some((f, rest)) => {
                    &&& r matches Ok(Some(x))
                    &&& x@ == f
                    &&& contents(*final(data)) == rest
                },
                None => r matches Err(x) && x is Short,
            },
    {
        let has_off: bool = ty / 4 % 2 == 1;
        let has_len: bool = ty / 2 % 2 == 1;
        let has_fin: bool = ty % 2 == 1;
        let id = StreamId(read_one(data)?);
        if has_off {
            let _offset = read_one(data)?;
        }
        let payload = if has_len {
            read_prefixed(data)?
        } else {
            // No LEN bit: rest of record is payload
            let n: usize = data.len();
            let ghost before = contents(*data);
            let payload = data.split_to(n);
            assert(contents(payload) =~= before);
            assert(contents(*data) =~= Seq::empty());
            payload
        };
        Ok(Some(Frame::Stream(Stream { id, data: payload, fin: has_fin })))
    }

    /// The frames that hold one number, and the types that do not exist.
    fn decode_single(ty: u64, data: &mut Bytes) -> (r: Result<Option<Frame>, Error>)
        requires
            !(STREAM_BASE <= ty < STREAM_BASE + 8),
            ty != RESET_STREAM,
            ty != STOP_SENDING,
            ty != CONNECTION_CLOSE,
            ty != APPLICATION_CLOSE,
            ty != MAX_STREAM_DATA,
            ty != STREAM_DATA_BLOCKED,
            ty != DATAGRAM,
            ty != DATAGRAM_LEN,
        ensures
            if has_fields(ty) {
                match one(contents(*old(data))) {
                    Some((v, rest)) => {
                        &&& r matches Ok(Some(x))
                        &&& x@ == single_value_frame(ty, v)
                        &&& contents(*final(data)) == rest
                    },
                    None => r matches Err(x) && x is Short,
                }
            } else {
                r matches Err(x) && x@ == ErrorView::InvalidFrameType(ty)
            },
    {
        if ty == MAX_DATA {
            Ok(Some(Frame::MaxData(read_one(data)?.into_inner())))
        } else if ty == MAX_STREAMS_BIDI {
            Ok(Some(Frame::MaxStreamsBidi(read_one(data)?.into_inner())))
        } else if ty == MAX_STREAMS_UNI {
            Ok(Some(Frame::MaxStreamsUni(read_one(data)?.into_inner())))
        } else if ty == DATA_BLOCKED {
            Ok(Some(Frame::DataBlocked(read_one(data)?.into_inner())))
        } else if ty == STREAMS_BLOCKED_BIDI {
            Ok(Some(Frame::StreamsBlockedBidi(read_one(data)?.into_inner())))
        } else if ty == STREAMS_BLOCKED_UNI {
            Ok(Some(Frame::StreamsBlockedUni(read_one(data)?.into_inner())))
        } else if ty == QX_PING_REQUEST {
            let sequence: u64 = read_one(data)?.into_inner();
            Ok(Some(Frame::Ping(Ping { sequence, response: false })))
        } else if ty == QX_PING_RESPONSE {
            let sequence: u64 = read_one(data)?.into_inner();
            Ok(Some(Frame::Ping(Ping { sequence, response: true })))
        } else {
            Err(Error::InvalidFrameType(ty))
        }
    }

    /// Decode all frames from a QMux record payload (draft-01).
    ///
    /// A record contains one or more frames concatenated together. Returns the
    /// decoded frames, without the padding.
    pub fn decode_record(data: Bytes) -> (r: Result<Vec<Frame>, Error>)
        ensures
            match frames_in(contents(data)) {
                Ok(frames) => r matches Ok(v) && views(v@) == frames,
                Err(e) => r matches Err(x) && x@ == e,
            },
    {
        let mut input = data;
        let ghost all = contents(data);
        let mut frames: Vec<Frame> = Vec::new();
        assert(frames_in(all) matches Ok(more) ==> views(frames@) + more =~= more);
        while !input.is_empty()
            invariant
                all == contents(data),
                match frames_in(contents(input)) {
                    Ok(more) => frames_in(all) == Ok::<_, ErrorView>(views(frames@) + more),
                    Err(e) => frames_in(all) == Err::<Seq<FrameView>, _>(e),
                },
            decreases contents(input).len(),
        {
            let ghost had = views(frames@);
            proof {
                lemma_frame_shrinks(contents(input));
            }
            if let Some(frame) = Frame::decode_qmux_one(&mut input)? {
                frames.push(frame);
                proof {
                    assert(views(frames@) =~= had + seq![frame@]);
                    if let Ok(more) = frames_in(contents(input)) {
                        assert(had + (seq![frame@] + more) =~= views(frames@) + more);
                    }
                }
            }
        }
        assert(views(frames@) + Seq::<FrameView>::empty() =~= views(frames@));
        Ok(frames)
    }

    /// Decode a frame from bytes using the given wire format version.
    ///
    /// Returns `Ok(None)` for what is recognized but ignored: padding, and datagrams
    /// before draft-01.
    pub fn decode(data: Bytes, version: Version) -> (r: Result<Option<Frame>, Error>)
        ensures
            match message_in(contents(data), version) {
                Ok(f) => r matches Ok(x) && view_of(x) == f,
                Err(e) => r matches Err(x) && x@ == e,
            },
    {
        if data.is_empty() {
            return Err(Error::Short);
        }
        match version {
            Version::WebTransport => {
                let frame = Frame::decode_wt(data)?;
                Ok(Some(frame))
            },
            Version::QMux00 => match Frame::decode_qmux(data)? {
                Some(Frame::Datagram(_)) => Ok(None),
                frame => Ok(frame),
            },
            Version::QMux01 => Frame::decode_qmux(data),
        }
    }

    fn decode_wt(data: Bytes) -> (r: Result<Frame, Error>)
        requires
            contents(data).len() > 0,
        ensures
            match wt_frame_in(contents(data)) {
                Ok(f) => r matches Ok(x) && x@ == f,
                Err(e) => r matches Err(x) && x@ == e,
            },
    {
        let mut data = data;
        let frame_type: u8 = get_u8(&mut data);
        if frame_type == 0x04 {
            let (id, code) = read_two(&mut data)?;
            // WebTransport wire format has no final_size; flow control is QMux-only.
            Ok(Frame::ResetStream(ResetStream { id: StreamId(id), code, final_size: 0 }))
        } else if frame_type == 0x05 {
            let (id, code) = read_two(&mut data)?;
            Ok(Frame::StopSending(StopSending { id: StreamId(id), code }))
        } else if frame_type == 0x08 || frame_type == 0x09 {
            let id = StreamId(read_one(&mut data)?);
            Ok(Frame::Stream(Stream { id, data, fin: frame_type == 0x09 }))
        } else if frame_type == 0x1d {
            let code = read_one(&mut data)?;
            let reason = from_utf8_lossy(as_slice(&data));
            Ok(Frame::ConnectionClose(ConnectionClose { code, reason }))
        } else {
            Err(Error::InvalidFrameType(frame_type as u64))
        }
    }

    fn decode_qmux(data: Bytes) -> (r: Result<Option<Frame>, Error>)
        ensures
            match frame_in(contents(data)) {
                Ok((f, _)) => r matches Ok(x) && view_of(x) == f,
                Err(e) => r matches Err(x) && x@ == e,
            },
    {
        let mut data = data;
        Frame::decode_qmux_one(&mut data)
    }
}

impl From<Bytes> for Datagram {
    fn from(payload: Bytes) -> (r: Datagram)
        ensures
            r.data == payload,
            r.length_prefixed,
    {
        Datagram { data: payload, length_prefixed: true }
    }
}

impl vstd::std_specs::convert::FromSpecImpl<Bytes> for Datagram {
    open spec fn obeys_from_spec() -> bool {
        true
    }

    open spec fn from_spec(payload: Bytes) -> Datagram {
        Datagram { data: payload, length_prefixed: true }
    }
}

impl From<Stream> for Frame {
    fn from(stream: Stream) -> (r: Frame)
        ensures
            r == Frame::Stream(stream),
    {
        Frame::Stream(stream)
    }
}

impl vstd::std_specs::convert::FromSpecImpl<Stream> for Frame {
    open spec fn obeys_from_spec() -> bool {
        true
    }

    open spec fn from_spec(stream: Stream) -> Frame {
        Frame::Stream(stream)
    }
}

impl From<ResetStream> for Frame {
    fn from(reset: ResetStream) -> (r: Frame)
        ensures
            r == Frame::ResetStream(reset),
    {
        Frame::ResetStream(reset)
    }
}

impl vstd::std_specs::convert::FromSpecImpl<ResetStream> for Frame {
    open spec fn obeys_from_spec() -> bool {
        true
    }

    open spec fn from_spec(reset: ResetStream) -> Frame {
        Frame::ResetStream(reset)
    }
}

impl From<StopSending> for Frame {
    fn from(stop: StopSending) -> (r: Frame)
        ensures
            r == Frame::StopSending(stop),
    {
        Frame::StopSending(stop)
    }
}

impl vstd::std_specs::convert::FromSpecImpl<StopSending> for Frame {
    open spec fn obeys_from_spec() -> bool {
        true
    }

    open spec fn from_spec(stop: StopSending) -> Frame {
        Frame::StopSending(stop)
    }
}

impl From<ConnectionClose> for Frame {
    fn from(close: ConnectionClose) -> (r: Frame)
        ensures
            r == Frame::ConnectionClose(close),
    {
        Frame::ConnectionClose(close)
    }
}

impl vstd::std_specs::convert::FromSpecImpl<ConnectionClose> for Frame {
    open spec fn obeys_from_spec() -> bool {
        true
    }

    open spec fn from_spec(close: ConnectionClose) -> Frame {
        Frame::ConnectionClose(close)
    }
}

} // verus!
