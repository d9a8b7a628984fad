//! What the frames look like on the wire, byte by byte.

use vstd::prelude::*;
use vstd::utf8::{encode_utf8, encode_utf8_decode_utf8, encode_utf8_valid_utf8};

use super::frame::{
    Frame, FrameView, frame_in, frame_size_of, frames_in, lemma_frame_round_trip, message_in,
    qmux_encoding, wt_encoding, wt_frame_in,
};
use super::params::{TransportParams, decoded_params, params_encoding};
use super::varint::{VARINT_MAX, encoding, lemma_round_trip};
use super::version::Version;
use super::wire::{lemma_one, lemma_prefixed, one, prefixed_encoding};
use crate::buffer::contents;
use crate::qmux::error::ErrorView;

verus! {

/// Law: the first byte of a frame tells what it is, and its numbers follow in the
/// order that RFC 9000 gives them. A peer that writes this is understood.
pub proof fn lemma_stream_frame_bytes(id: u64, code: u64, size: u64, rest: Seq<u8>)
    requires
        id <= VARINT_MAX,
        code <= VARINT_MAX,
        size <= VARINT_MAX,
    ensures
        ({
            let reset = seq![0x04u8] + encoding(id) + encoding(code) + encoding(size);
            let stop = seq![0x05u8] + encoding(id) + encoding(code);
            let max = seq![0x11u8] + encoding(id) + encoding(size);
            let blocked = seq![0x15u8] + encoding(id) + encoding(size);
            &&& qmux_encoding(FrameView::ResetStream { id, code, final_size: size }) == reset
            &&& frame_in(reset + rest) == Ok::<_, ErrorView>(
                (Some(FrameView::ResetStream { id, code, final_size: size }), rest),
            )
            &&& qmux_encoding(FrameView::StopSending { id, code }) == stop
            &&& frame_in(stop + rest) == Ok::<_, ErrorView>(
                (Some(FrameView::StopSending { id, code }), rest),
            )
            &&& qmux_encoding(FrameView::MaxStreamData { id, max: size }) == max
            &&& frame_in(max + rest) == Ok::<_, ErrorView>(
                (Some(FrameView::MaxStreamData { id, max: size }), rest),
            )
            &&& qmux_encoding(FrameView::StreamDataBlocked { id, limit: size }) == blocked
            &&& frame_in(blocked + rest) == Ok::<_, ErrorView>(
                (Some(FrameView::StreamDataBlocked { id, limit: size }), rest),
            )
        }),
{
    lemma_frame_round_trip(FrameView::ResetStream { id, code, final_size: size }, rest);
    lemma_frame_round_trip(FrameView::StopSending { id, code }, rest);
    lemma_frame_round_trip(FrameView::MaxStreamData { id, max: size }, rest);
    lemma_frame_round_trip(FrameView::StreamDataBlocked { id, limit: size }, rest);
}

/// Law: a limit of the connection is a byte and one number.
pub proof fn lemma_limit_bytes(v: u64, rest: Seq<u8>)
    requires
        v <= VARINT_MAX,
    ensures
        qmux_encoding(FrameView::MaxData(v)) == seq![0x10u8] + encoding(v),
        frame_in(seq![0x10u8] + encoding(v) + rest) == Ok::<_, ErrorView>(
            (Some(FrameView::MaxData(v)), rest),
        ),
        qmux_encoding(FrameView::MaxStreamsBidi(v)) == seq![0x12u8] + encoding(v),
        frame_in(seq![0x12u8] + encoding(v) + rest) == Ok::<_, ErrorView>(
            (Some(FrameView::MaxStreamsBidi(v)), rest),
        ),
        qmux_encoding(FrameView::MaxStreamsUni(v)) == seq![0x13u8] + encoding(v),
        frame_in(seq![0x13u8] + encoding(v) + rest) == Ok::<_, ErrorView>(
            (Some(FrameView::MaxStreamsUni(v)), rest),
        ),
{
    lemma_frame_round_trip(FrameView::MaxData(v), rest);
    lemma_frame_round_trip(FrameView::MaxStreamsBidi(v), rest);
    lemma_frame_round_trip(FrameView::MaxStreamsUni(v), rest);
}

/// Law: so is the news that a limit is reached.
pub proof fn lemma_blocked_bytes(v: u64, rest: Seq<u8>)
    requires
        v <= VARINT_MAX,
    ensures
        qmux_encoding(FrameView::DataBlocked(v)) == seq![0x14u8] + encoding(v),
        frame_in(seq![0x14u8] + encoding(v) + rest) == Ok::<_, ErrorView>(
            (Some(FrameView::DataBlocked(v)), rest),
        ),
        qmux_encoding(FrameView::StreamsBlockedBidi(v)) == seq![0x16u8] + encoding(v),
        frame_in(seq![0x16u8] + encoding(v) + rest) == Ok::<_, ErrorView>(
            (Some(FrameView::StreamsBlockedBidi(v)), rest),
        ),
        qmux_encoding(FrameView::StreamsBlockedUni(v)) == seq![0x17u8] + encoding(v),
        frame_in(seq![0x17u8] + encoding(v) + rest) == Ok::<_, ErrorView>(
            (Some(FrameView::StreamsBlockedUni(v)), rest),
        ),
{
    lemma_frame_round_trip(FrameView::DataBlocked(v), rest);
    lemma_frame_round_trip(FrameView::StreamsBlockedBidi(v), rest);
    lemma_frame_round_trip(FrameView::StreamsBlockedUni(v), rest);
}

/// The types of eight bytes.
proof fn lemma_long_types()
    ensures
        encoding(0x348c67529ef8c7bd) == seq![
            0xf4u8,
            0x8cu8,
            0x67u8,
            0x52u8,
            0x9eu8,
            0xf8u8,
            0xc7u8,
            0xbdu8,
        ],
        encoding(0x348c67529ef8c7be) == seq![
            0xf4u8,
            0x8cu8,
            0x67u8,
            0x52u8,
            0x9eu8,
            0xf8u8,
            0xc7u8,
            0xbeu8,
        ],
        encoding(0x3f5153300d0a0d0a) == seq![
            0xffu8,
            0x51u8,
            0x53u8,
            0x30u8,
            0x0du8,
            0x0au8,
            0x0du8,
            0x0au8,
        ],
{
}

/// Law: a ping has a type of eight bytes, the last of which tells an answer.
pub proof fn lemma_ping_bytes(v: u64, rest: Seq<u8>)
    requires
        v <= VARINT_MAX,
    ensures
        ({
            let ask = seq![0xf4u8, 0x8cu8, 0x67u8, 0x52u8, 0x9eu8, 0xf8u8, 0xc7u8, 0xbdu8]
                + encoding(v);
            let answer = seq![0xf4u8, 0x8cu8, 0x67u8, 0x52u8, 0x9eu8, 0xf8u8, 0xc7u8, 0xbeu8]
                + encoding(v);
            &&& qmux_encoding(FrameView::Ping { sequence: v, response: false }) == ask
            &&& frame_in(ask + rest) == Ok::<_, ErrorView>(
                (Some(FrameView::Ping { sequence: v, response: false }), rest),
            )
            &&& qmux_encoding(FrameView::Ping { sequence: v, response: true }) == answer
            &&& frame_in(answer + rest) == Ok::<_, ErrorView>(
                (Some(FrameView::Ping { sequence: v, response: true }), rest),
            )
        }),
{
    lemma_long_types();
    lemma_frame_round_trip(FrameView::Ping { sequence: v, response: false }, rest);
    lemma_frame_round_trip(FrameView::Ping { sequence: v, response: true }, rest);
}

/// A type that fits in six bits is one byte.
proof fn lemma_type_byte(ty: u8, tail: Seq<u8>)
    requires
        ty < 0x40,
    ensures
        encoding(ty as u64) == seq![ty],
        one(seq![ty] + tail) == Some((ty as u64, tail)),
{
    assert(encoding(ty as u64) =~= seq![ty]);
    lemma_one(ty as u64, tail);
}

/// Law: stream data is written behind its length and without an offset, and the last
/// bit of the type says whether it is the last.
pub proof fn lemma_stream_bytes(id: u64, data: Seq<u8>, fin: bool, rest: Seq<u8>)
    requires
        id <= VARINT_MAX,
        data.len() <= VARINT_MAX,
    ensures
        ({
            let f = FrameView::Stream { id, data, fin };
            let ty = if fin {
                0x0bu8
            } else {
                0x0au8
            };
            let b = seq![ty] + encoding(id) + (encoding(data.len() as u64) + data);
            &&& qmux_encoding(f) == b
            &&& frame_in(b + rest) == Ok::<_, ErrorView>((Some(f), rest))
        }),
{
    let ty = if fin {
        0x0bu8
    } else {
        0x0au8
    };
    lemma_type_byte(ty, Seq::empty());
    lemma_frame_round_trip(FrameView::Stream { id, data, fin }, rest);
}

/// Law: stream data that has no length is read up to the end of the input.
pub proof fn lemma_stream_to_end_bytes(id: u64, data: Seq<u8>, fin: bool)
    requires
        id <= VARINT_MAX,
    ensures
        ({
            let ty = if fin {
                0x09u8
            } else {
                0x08u8
            };
            frame_in(seq![ty] + (encoding(id) + data)) == Ok::<_, ErrorView>(
                (Some(FrameView::Stream { id, data, fin }), Seq::<u8>::empty()),
            )
        }),
{
    let ty = if fin {
        0x09u8
    } else {
        0x08u8
    };
    lemma_type_byte(ty, encoding(id) + data);
    lemma_one(id, data);
}

/// Law: an offset in front of the data is skipped, with a length and without one.
pub proof fn lemma_stream_offset_bytes(
    id: u64,
    offset: u64,
    data: Seq<u8>,
    fin: bool,
    rest: Seq<u8>,
)
    requires
        id <= VARINT_MAX,
        offset <= VARINT_MAX,
        data.len() <= VARINT_MAX,
    ensures
        ({
            let f = FrameView::Stream { id, data, fin };
            let open = if fin {
                0x0du8
            } else {
                0x0cu8
            };
            let sized = if fin {
                0x0fu8
            } else {
                0x0eu8
            };
            &&& frame_in(seq![open] + (encoding(id) + (encoding(offset) + data))) == Ok::<
                _,
                ErrorView,
            >((Some(f), Seq::<u8>::empty()))
            &&& frame_in(
                seq![sized] + (encoding(id) + (encoding(offset) + (prefixed_encoding(data)
                    + rest))),
            ) == Ok::<_, ErrorView>((Some(f), rest))
        }),
{
    let open = if fin {
        0x0du8
    } else {
        0x0cu8
    };
    let sized = if fin {
        0x0fu8
    } else {
        0x0eu8
    };
    let behind = prefixed_encoding(data) + rest;
    lemma_type_byte(open, encoding(id) + (encoding(offset) + data));
    lemma_type_byte(sized, encoding(id) + (encoding(offset) + behind));
    lemma_one(id, encoding(offset) + data);
    lemma_one(id, encoding(offset) + behind);
    lemma_one(offset, data);
    lemma_one(offset, behind);
    lemma_prefixed(data, rest);
}

/// Law: a datagram is written behind its length, and read with one or up to the end.
/// Padding is a zero byte, and nothing comes of it.
pub proof fn lemma_datagram_bytes(data: Seq<u8>, prefixed: bool, rest: Seq<u8>)
    requires
        data.len() <= VARINT_MAX,
    ensures
        qmux_encoding(FrameView::Datagram { data, length_prefixed: prefixed }) == seq![0x31u8]
            + encoding(data.len() as u64) + data,
        frame_in(seq![0x31u8] + encoding(data.len() as u64) + data + rest) == Ok::<_, ErrorView>(
            (Some(FrameView::Datagram { data, length_prefixed: true }), rest),
        ),
        frame_in(seq![0x30u8] + data) == Ok::<_, ErrorView>(
            (Some(FrameView::Datagram { data, length_prefixed: false }), Seq::<u8>::empty()),
        ),
        qmux_encoding(FrameView::Padding) == seq![0x00u8],
        frame_in(seq![0x00u8] + rest) == Ok::<_, ErrorView>((None::<FrameView>, rest)),
{
    let sized = seq![0x31u8] + encoding(data.len() as u64) + data;
    assert(qmux_encoding(FrameView::Datagram { data, length_prefixed: prefixed }) =~= sized);
    lemma_frame_round_trip(FrameView::Datagram { data, length_prefixed: prefixed }, rest);
    lemma_one(0x30, data);
    lemma_one(0, rest);
    assert(seq![0x30u8] =~= encoding(0x30));
    assert(seq![0x00u8] =~= encoding(0));
}

/// Law: a close is written as one of the application, with a frame type of zero, and is
/// read from either side with any frame type.
pub proof fn lemma_close_bytes(code: u64, frame: u64, reason: Seq<char>, rest: Seq<u8>)
    requires
        code <= VARINT_MAX,
        frame <= VARINT_MAX,
        encode_utf8(reason).len() <= VARINT_MAX,
    ensures
        ({
            let f = FrameView::ConnectionClose { code, reason };
            let text = encode_utf8(reason);
            let tail = encoding(code) + (encoding(frame) + (prefixed_encoding(text) + rest));
            &&& qmux_encoding(f) == seq![0x1du8] + encoding(code) + seq![0x00u8] + (encoding(
                text.len() as u64,
            ) + text)
            &&& frame_in(seq![0x1cu8] + tail) == Ok::<_, ErrorView>((Some(f), rest))
            &&& frame_in(seq![0x1du8] + tail) == Ok::<_, ErrorView>((Some(f), rest))
        }),
{
    let text = encode_utf8(reason);
    let tail = encoding(code) + (encoding(frame) + (prefixed_encoding(text) + rest));
    lemma_type_byte(0, tail);
    lemma_type_byte(0x1c, tail);
    lemma_type_byte(0x1d, tail);
    lemma_one(code, encoding(frame) + (prefixed_encoding(text) + rest));
    lemma_one(frame, prefixed_encoding(text) + rest);
    lemma_prefixed(text, rest);
    encode_utf8_valid_utf8(reason);
    encode_utf8_decode_utf8(reason);
}

/// Law: the parameters come behind eight bytes that spell their type, and their length.
pub proof fn lemma_params_bytes(value: Seq<u8>, f: FrameView, rest: Seq<u8>)
    requires
        value.len() <= VARINT_MAX,
    ensures
        ({
            let ty = seq![0xffu8, 0x51u8, 0x53u8, 0x30u8, 0x0du8, 0x0au8, 0x0du8, 0x0au8];
            &&& f matches FrameView::TransportParameters(p) ==> qmux_encoding(f) == ty
                + prefixed_encoding(params_encoding(p))
            &&& match decoded_params(value) {
                Ok(p) => frame_in(ty + encoding(value.len() as u64) + value + rest) == Ok::<
                    _,
                    ErrorView,
                >((Some(FrameView::TransportParameters(p)), rest)),
                Err(e) => frame_in(ty + encoding(value.len() as u64) + value + rest) == Err::<
                    (Option<FrameView>, Seq<u8>),
                    _,
                >(e),
            }
        }),
{
    let ty = seq![0xffu8, 0x51u8, 0x53u8, 0x30u8, 0x0du8, 0x0au8, 0x0du8, 0x0au8];
    lemma_long_types();
    lemma_one(0x3f5153300d0a0d0a, prefixed_encoding(value) + rest);
    assert(ty + encoding(value.len() as u64) + value + rest =~= ty + (prefixed_encoding(value)
        + rest));
    lemma_prefixed(value, rest);
}

/// Law: a type that no frame has is refused, and named.
pub proof fn lemma_unknown_type(ty: u64, rest: Seq<u8>)
    requires
        ty <= VARINT_MAX,
        1 <= ty <= 3 || ty == 6 || ty == 7 || 0x18 <= ty <= 0x1b || 0x1e <= ty <= 0x2f || 0x32 <= ty
            < 0x348c67529ef8c7bd || 0x348c67529ef8c7be < ty < 0x3f5153300d0a0d0a || ty
            > 0x3f5153300d0a0d0a,
    ensures
        frame_in(encoding(ty) + rest) == Err::<(Option<FrameView>, Seq<u8>), _>(
            ErrorView::InvalidFrameType(ty),
        ),
        frame_in(Seq::empty()) == Err::<(Option<FrameView>, Seq<u8>), _>(ErrorView::Short),
{
    lemma_one(ty, rest);
}

/// Law: the frames of a record are read from the first to the last, and one that cannot
/// be read fails them all. Padding between them is skipped.
pub proof fn lemma_frames_in_turn(f: FrameView, rest: Seq<u8>)
    requires
        f.encodable(),
        !(f is TransportParameters),
        !(f is Datagram),
    ensures
        frames_in(Seq::empty()) == Ok::<_, ErrorView>(Seq::<FrameView>::empty()),
        frames_in(qmux_encoding(f) + rest) == match frames_in(rest) {
            Err(e) => Err(e),
            Ok(more) => Ok(
                if f is Padding {
                    more
                } else {
                    seq![f] + more
                },
            ),
        },
{
    lemma_frame_round_trip(f, rest);
    let s = qmux_encoding(f) + rest;
    assert(s.len() > 0) by {
        if s.len() == 0 {
            assert(frame_in(s) is Err);
        }
    }
}

/// Law: the legacy format has four frames of one byte of type, and its data and texts
/// run to the end of the message.
pub proof fn lemma_legacy_bytes(
    id: u64,
    code: u64,
    size: u64,
    data: Seq<u8>,
    fin: bool,
    reason: Seq<char>,
)
    requires
        id <= VARINT_MAX,
        code <= VARINT_MAX,
    ensures
        ({
            let stream = seq![
                if fin {
                    0x09u8
                } else {
                    0x08u8
                },
            ] + encoding(id) + data;
            let reset = seq![0x04u8] + encoding(id) + encoding(code);
            let stop = seq![0x05u8] + encoding(id) + encoding(code);
            let close = seq![0x1du8] + encoding(code) + encode_utf8(reason);
            &&& wt_encoding(FrameView::Stream { id, data, fin }) == stream
            &&& wt_frame_in(stream) == Ok::<_, ErrorView>(FrameView::Stream { id, data, fin })
            &&& wt_encoding(FrameView::ResetStream { id, code, final_size: size }) == reset
            &&& wt_frame_in(reset) == Ok::<_, ErrorView>(
                FrameView::ResetStream { id, code, final_size: 0 },
            )
            &&& wt_encoding(FrameView::StopSending { id, code }) == stop
            &&& wt_frame_in(stop) == Ok::<_, ErrorView>(FrameView::StopSending { id, code })
            &&& wt_encoding(FrameView::ConnectionClose { code, reason }) == close
            &&& wt_frame_in(close) == Ok::<_, ErrorView>(
                FrameView::ConnectionClose { code, reason },
            )
        }),
{
    let none = Seq::<u8>::empty();
    let stream = seq![
        if fin {
            0x09u8
        } else {
            0x08u8
        },
    ] + encoding(id) + data;
    let reset = seq![0x04u8] + encoding(id) + encoding(code);
    let stop = seq![0x05u8] + encoding(id) + encoding(code);
    let close = seq![0x1du8] + encoding(code) + encode_utf8(reason);
    assert(encoding(code) + none =~= encoding(code));
    assert(stream.skip(1) =~= encoding(id) + data);
    assert(reset.skip(1) =~= encoding(id) + encoding(code));
    assert(stop.skip(1) =~= encoding(id) + encoding(code));
    assert(close.skip(1) =~= encoding(code) + encode_utf8(reason));
    lemma_one(id, data);
    lemma_one(id, encoding(code));
    lemma_one(code, none);
    lemma_one(code, encode_utf8(reason));
    encode_utf8_valid_utf8(reason);
    encode_utf8_decode_utf8(reason);
}

/// Law: a message is read in the format of its version. An empty one is too short, one
/// of an unknown type is refused, and draft-00 takes no notice of datagrams.
pub proof fn lemma_message(s: Seq<u8>, version: Version)
    ensures
        s.len() == 0 ==> message_in(s, version) == Err::<Option<FrameView>, _>(ErrorView::Short),
        s.len() > 0 && version is WebTransport ==> match wt_frame_in(s) {
            Ok(f) => message_in(s, version) == Ok::<_, ErrorView>(Some(f)),
            Err(e) => message_in(s, version) == Err::<Option<FrameView>, _>(e),
        },
        s.len() > 0 && version is WebTransport && s[0] != 4 && s[0] != 5 && s[0] != 8 && s[0] != 9
            && s[0] != 0x1d ==> message_in(s, version) == Err::<Option<FrameView>, _>(
            ErrorView::InvalidFrameType(s[0] as u64),
        ),
        s.len() == 1 && version is WebTransport && (s[0] == 4 || s[0] == 5 || s[0] == 8 || s[0] == 9
            || s[0] == 0x1d) ==> message_in(s, version) == Err::<Option<FrameView>, _>(
            ErrorView::Short,
        ),
        s.len() > 0 && !(version is WebTransport) ==> match frame_in(s) {
            Ok((f, _)) => message_in(s, version) == Ok::<_, ErrorView>(
                if version is QMux00 && f is Some && f->0 is Datagram {
                    None
                } else {
                    f
                },
            ),
            Err(e) => message_in(s, version) == Err::<Option<FrameView>, _>(e),
        },
{
    if s.len() == 1 {
        assert(s.skip(1).len() == 0);
    }
}

/// Law: which frames a version has.
pub proof fn lemma_supported(f: FrameView)
    ensures
        f.supported(Version::QMux01),
        f.supported(Version::QMux00) == match f {
            FrameView::Padding | FrameView::Ping { .. } | FrameView::Datagram { .. } => false,
            _ => true,
        },
        f.supported(Version::WebTransport) == match f {
            FrameView::Stream { .. }
            | FrameView::ResetStream { .. }
            | FrameView::StopSending { .. }
            | FrameView::ConnectionClose { .. } => true,
            _ => false,
        },
{
}

/// Law: a frame can be written where each of its numbers and lengths has at most 62
/// bits. The legacy format writes neither lengths nor final sizes.
pub proof fn lemma_encodable(f: FrameView)
    ensures
        ({
            let most: u64 = 0x3fff_ffff_ffff_ffff;
            &&& f.encodable() == match f {
                FrameView::Padding => true,
                FrameView::ResetStream { id, code, final_size } => id <= most && code <= most
                    && final_size <= most,
                FrameView::StopSending { id, code } => id <= most && code <= most,
                FrameView::ConnectionClose { code, reason } => code <= most && encode_utf8(
                    reason,
                ).len() <= most,
                FrameView::Stream { id, data, .. } => id <= most && data.len() <= most,
                FrameView::MaxData(v)
                | FrameView::MaxStreamsBidi(v)
                | FrameView::MaxStreamsUni(v)
                | FrameView::DataBlocked(v)
                | FrameView::StreamsBlockedBidi(v)
                | FrameView::StreamsBlockedUni(v) => v <= most,
                FrameView::MaxStreamData { id, max } => id <= most && max <= most,
                FrameView::StreamDataBlocked { id, limit } => id <= most && limit <= most,
                FrameView::TransportParameters(p) => p.encodable() && params_encoding(p).len()
                    <= most,
                FrameView::Ping { sequence, .. } => sequence <= most,
                FrameView::Datagram { data, .. } => data.len() <= most,
            }
            &&& f.encodable_in(Version::QMux00) == f.encodable()
            &&& f.encodable_in(Version::QMux01) == f.encodable()
            &&& f.encodable_in(Version::WebTransport) == match f {
                FrameView::ResetStream { id, code, .. } => id <= most && code <= most,
                FrameView::ConnectionClose { code, .. } => code <= most,
                FrameView::Stream { id, .. } => id <= most,
                _ => f.encodable(),
            }
        }),
{
}

/// Law: a datagram takes as many bytes as it is written in, or one for its type where
/// it runs to the end.
pub proof fn lemma_datagram_size(data: Seq<u8>)
    requires
        data.len() <= VARINT_MAX,
    ensures
        frame_size_of(data.len(), true) == qmux_encoding(
            FrameView::Datagram { data, length_prefixed: true },
        ).len(),
        frame_size_of(data.len(), false) == data.len() + 1,
{
    lemma_round_trip(data.len() as u64, Seq::empty());
}

/// Law: a frame over plain values is the same frame, field by field.
pub proof fn lemma_frame_shown(f: Frame)
    ensures
        match f {
            Frame::Padding => f@ is Padding,
            Frame::ResetStream(r) => f@ == (FrameView::ResetStream {
                id: r.id@,
                code: r.code@,
                final_size: r.final_size,
            }),
            Frame::StopSending(s) => f@ == (FrameView::StopSending { id: s.id@, code: s.code@ }),
            Frame::ConnectionClose(c) => f@ == (FrameView::ConnectionClose {
                code: c.code@,
                reason: c.reason@,
            }),
            Frame::Stream(s) => f@ == (FrameView::Stream {
                id: s.id@,
                data: contents(s.data),
                fin: s.fin,
            }),
            Frame::MaxData(v) => f@ == FrameView::MaxData(v),
            Frame::MaxStreamData { id, max } => f@ == (FrameView::MaxStreamData { id: id@, max }),
            Frame::MaxStreamsBidi(v) => f@ == FrameView::MaxStreamsBidi(v),
            Frame::MaxStreamsUni(v) => f@ == FrameView::MaxStreamsUni(v),
            Frame::DataBlocked(v) => f@ == FrameView::DataBlocked(v),
            Frame::StreamDataBlocked { id, limit } => f@ == (FrameView::StreamDataBlocked {
                id: id@,
                limit,
            }),
            Frame::StreamsBlockedBidi(v) => f@ == FrameView::StreamsBlockedBidi(v),
            Frame::StreamsBlockedUni(v) => f@ == FrameView::StreamsBlockedUni(v),
            Frame::TransportParameters(p) => f@ == FrameView::TransportParameters(p@),
            Frame::Ping(p) => f@ == (FrameView::Ping {
                sequence: p.sequence,
                response: p.response,
            }),
            Frame::Datagram(d) => f@ == (FrameView::Datagram {
                data: contents(d.data),
                length_prefixed: d.length_prefixed,
            }),
        },
{
}

/// Law: parameters over plain values are the same parameters, each under its own name.
pub proof fn lemma_params_shown(p: TransportParams, i: int)
    ensures
        p@.max_idle_timeout == p.max_idle_timeout,
        p@.initial_max_data == p.initial_max_data,
        p@.initial_max_stream_data_bidi_local == p.initial_max_stream_data_bidi_local,
        p@.initial_max_stream_data_bidi_remote == p.initial_max_stream_data_bidi_remote,
        p@.initial_max_stream_data_uni == p.initial_max_stream_data_uni,
        p@.initial_max_streams_bidi == p.initial_max_streams_bidi,
        p@.initial_max_streams_uni == p.initial_max_streams_uni,
        p@.max_datagram_frame_size == p.max_datagram_frame_size,
        p@.max_record_size == p.max_record_size,
        p@.protocols.len() == p.protocols@.len(),
        0 <= i < p.protocols@.len() ==> p@.protocols[i] == p.protocols@[i]@,
{
}

} // verus!
