//! Transport parameters: what each side tells the other when a connection starts.

use std::collections::HashSet;

use bytes::{Bytes, BytesMut};
use vstd::prelude::*;
use vstd::utf8::{
    decode_utf8, encode_utf8, encode_utf8_decode_utf8, encode_utf8_valid_utf8, valid_utf8,
};

use super::varint::{VARINT_MAX, VarInt, encoding, lemma_round_trip, size_of_varint};
use super::wire::{
    lemma_one, lemma_one_more, lemma_one_shrinks, lemma_prefixed, lemma_prefixed_more, one,
    prefixed, prefixed_encoding, put_prefixed, put_value, read_one, read_prefixed,
};
use crate::buffer::{as_slice, contents, written};
use crate::qmux::error::{Error, ErrorView};
use crate::text::{debug, debug_text, from_utf8};

verus! {

/// Default `max_record_size` per draft-01.
pub const DEFAULT_MAX_RECORD_SIZE: u64 = 16382;

/// `max_idle_timeout`, in milliseconds.
pub const MAX_IDLE_TIMEOUT: u64 = 0x01;

/// `initial_max_data`.
pub const INITIAL_MAX_DATA: u64 = 0x04;

/// `initial_max_stream_data_bidi_local`.
pub const INITIAL_MAX_STREAM_DATA_BIDI_LOCAL: u64 = 0x05;

/// `initial_max_stream_data_bidi_remote`.
pub const INITIAL_MAX_STREAM_DATA_BIDI_REMOTE: u64 = 0x06;

/// `initial_max_stream_data_uni`.
pub const INITIAL_MAX_STREAM_DATA_UNI: u64 = 0x07;

/// `initial_max_streams_bidi`.
pub const INITIAL_MAX_STREAMS_BIDI: u64 = 0x08;

/// `initial_max_streams_uni`.
pub const INITIAL_MAX_STREAMS_UNI: u64 = 0x09;

/// `max_datagram_frame_size` (RFC 9221).
pub const MAX_DATAGRAM_FRAME_SIZE: u64 = 0x20;

/// `max_record_size` (QMux-specific, exceeds 32 bits).
pub const MAX_RECORD_SIZE_ID: u64 = 0x0571c59429cd0845;

/// `application_protocols` (QMux-specific): carries the ALPN list on transports
/// without TLS.
pub const APPLICATION_PROTOCOLS_ID: u64 = 0x3d4f9c2a8b1e6075;

/// Transport parameters exchanged during QMux connection setup.
///
/// These mirror the QUIC transport parameters of RFC 9000, section 18.2, plus
/// the QMux-specific ones of draft-01. All values default to 0 (per QUIC),
/// meaning no data or streams allowed until the peer advertises its limits.
#[derive(Debug)]
pub struct TransportParams {
    pub max_idle_timeout: u64,
    pub initial_max_data: u64,
    pub initial_max_stream_data_bidi_local: u64,
    pub initial_max_stream_data_bidi_remote: u64,
    pub initial_max_stream_data_uni: u64,
    pub initial_max_streams_bidi: u64,
    pub initial_max_streams_uni: u64,
    pub max_datagram_frame_size: u64,
    pub max_record_size: u64,
    /// Application protocols advertised for negotiation (preference order).
    ///
    /// This is the non-TLS substitute for ALPN: each side lists the protocols it
    /// supports and both derive the agreed protocol (server preference wins).
    /// Empty when the application protocol was negotiated out of band or not at
    /// all; the parameter is then omitted entirely.
    pub protocols: Vec<String>,
}

/// [`TransportParams`] with the protocol names as characters.
#[verifier::ext_equal]
pub struct ParamsView {
    pub max_idle_timeout: u64,
    pub initial_max_data: u64,
    pub initial_max_stream_data_bidi_local: u64,
    pub initial_max_stream_data_bidi_remote: u64,
    pub initial_max_stream_data_uni: u64,
    pub initial_max_streams_bidi: u64,
    pub initial_max_streams_uni: u64,
    pub max_datagram_frame_size: u64,
    pub max_record_size: u64,
    pub protocols: Seq<Seq<char>>,
}

/// The characters of each string.
pub open spec fn texts(v: Seq<String>) -> Seq<Seq<char>> {
    Seq::new(v.len(), |i: int| v[i]@)
}

/// The parameters of a peer that sent none of them.
pub open spec fn no_params() -> ParamsView {
    ParamsView {
        max_idle_timeout: 0,
        initial_max_data: 0,
        initial_max_stream_data_bidi_local: 0,
        initial_max_stream_data_bidi_remote: 0,
        initial_max_stream_data_uni: 0,
        initial_max_streams_bidi: 0,
        initial_max_streams_uni: 0,
        max_datagram_frame_size: 0,
        max_record_size: 0,
        protocols: Seq::empty(),
    }
}

impl View for TransportParams {
    type V = ParamsView;

    open spec fn view(&self) -> ParamsView {
        ParamsView {
            max_idle_timeout: self.max_idle_timeout,
            initial_max_data: self.initial_max_data,
            initial_max_stream_data_bidi_local: self.initial_max_stream_data_bidi_local,
            initial_max_stream_data_bidi_remote: self.initial_max_stream_data_bidi_remote,
            initial_max_stream_data_uni: self.initial_max_stream_data_uni,
            initial_max_streams_bidi: self.initial_max_streams_bidi,
            initial_max_streams_uni: self.initial_max_streams_uni,
            max_datagram_frame_size: self.max_datagram_frame_size,
            max_record_size: self.max_record_size,
            protocols: texts(self.protocols@),
        }
    }
}

impl ParamsView {
    /// Whether every value fits the wire format.
    pub open spec fn encodable(self) -> bool {
        &&& self.max_idle_timeout <= VARINT_MAX
        &&& self.initial_max_data <= VARINT_MAX
        &&& self.initial_max_stream_data_bidi_local <= VARINT_MAX
        &&& self.initial_max_stream_data_bidi_remote <= VARINT_MAX
        &&& self.initial_max_stream_data_uni <= VARINT_MAX
        &&& self.initial_max_streams_bidi <= VARINT_MAX
        &&& self.initial_max_streams_uni <= VARINT_MAX
        &&& self.max_datagram_frame_size <= VARINT_MAX
        &&& self.max_record_size <= VARINT_MAX
        &&& names_fit(self.protocols)
        &&& names_encoding(self.protocols).len() <= VARINT_MAX
    }

    /// The same parameters with `id` set to `v`.
    pub open spec fn with(self, id: u64, v: u64) -> ParamsView {
        if id == MAX_IDLE_TIMEOUT {
            ParamsView { max_idle_timeout: v, ..self }
        } else if id == INITIAL_MAX_DATA {
            ParamsView { initial_max_data: v, ..self }
        } else if id == INITIAL_MAX_STREAM_DATA_BIDI_LOCAL {
            ParamsView { initial_max_stream_data_bidi_local: v, ..self }
        } else if id == INITIAL_MAX_STREAM_DATA_BIDI_REMOTE {
            ParamsView { initial_max_stream_data_bidi_remote: v, ..self }
        } else if id == INITIAL_MAX_STREAM_DATA_UNI {
            ParamsView { initial_max_stream_data_uni: v, ..self }
        } else if id == INITIAL_MAX_STREAMS_BIDI {
            ParamsView { initial_max_streams_bidi: v, ..self }
        } else if id == INITIAL_MAX_STREAMS_UNI {
            ParamsView { initial_max_streams_uni: v, ..self }
        } else if id == MAX_DATAGRAM_FRAME_SIZE {
            ParamsView { max_datagram_frame_size: v, ..self }
        } else if id == MAX_RECORD_SIZE_ID {
            ParamsView { max_record_size: v, ..self }
        } else {
            self
        }
    }
}

/// Whether parameter `id` holds one integer.
pub open spec fn is_integer_param(id: u64) -> bool {
    ||| id == MAX_IDLE_TIMEOUT
    ||| INITIAL_MAX_DATA <= id <= INITIAL_MAX_STREAMS_UNI
    ||| id == MAX_DATAGRAM_FRAME_SIZE
    ||| id == MAX_RECORD_SIZE_ID
}

/// Whether every name is short enough to have its length written.
pub open spec fn names_fit(names: Seq<Seq<char>>) -> bool {
    forall|i: int| 0 <= i < names.len() ==> encode_utf8(#[trigger] names[i]).len() <= VARINT_MAX
}

/// A list of names: each in UTF-8 behind its length.
pub open spec fn names_encoding(names: Seq<Seq<char>>) -> Seq<u8>
    decreases names.len(),
{
    if names.len() == 0 {
        Seq::empty()
    } else {
        names_encoding(names.drop_last()) + prefixed_encoding(encode_utf8(names.last()))
    }
}

/// One parameter that holds an integer: its identifier, the length of its value
/// and the value. A value of zero is the default and is left out.
#[verifier::opaque]
pub open spec fn param_encoding(id: u64, v: u64) -> Seq<u8> {
    if v == 0 {
        Seq::empty()
    } else {
        encoding(id) + prefixed_encoding(encoding(v))
    }
}

/// The `application_protocols` parameter, left out when there are none.
pub open spec fn protocols_encoding(names: Seq<Seq<char>>) -> Seq<u8> {
    if names.len() == 0 {
        Seq::empty()
    } else {
        encoding(APPLICATION_PROTOCOLS_ID) + prefixed_encoding(names_encoding(names))
    }
}

/// Transport parameters on the wire: one after the other.
pub open spec fn params_encoding(p: ParamsView) -> Seq<u8> {
    param_encoding(MAX_IDLE_TIMEOUT, p.max_idle_timeout)
        + param_encoding(INITIAL_MAX_DATA, p.initial_max_data)
        + param_encoding(INITIAL_MAX_STREAM_DATA_BIDI_LOCAL, p.initial_max_stream_data_bidi_local)
        + param_encoding(INITIAL_MAX_STREAM_DATA_BIDI_REMOTE, p.initial_max_stream_data_bidi_remote)
        + param_encoding(INITIAL_MAX_STREAM_DATA_UNI, p.initial_max_stream_data_uni)
        + param_encoding(INITIAL_MAX_STREAMS_BIDI, p.initial_max_streams_bidi)
        + param_encoding(INITIAL_MAX_STREAMS_UNI, p.initial_max_streams_uni)
        + param_encoding(MAX_DATAGRAM_FRAME_SIZE, p.max_datagram_frame_size)
        + param_encoding(MAX_RECORD_SIZE_ID, p.max_record_size)
        + protocols_encoding(p.protocols)
}

/// The names in `s`, which they take up to its end.
pub open spec fn names_in(s: Seq<u8>) -> Result<Seq<Seq<char>>, ErrorView>
    decreases s.len(),
{
    if s.len() == 0 {
        Ok(Seq::empty())
    } else {
        match prefixed(s) {
            None => Err(ErrorView::Short),
            Some((name, rest)) => {
                proof {
                    lemma_one_shrinks(s);
                }
                if !valid_utf8(name) {
                    Err(ErrorView::InvalidProtocol(debug_text(name)))
                } else {
                    match names_in(rest) {
                        Err(e) => Err(e),
                        Ok(more) => Ok(seq![decode_utf8(name)] + more),
                    }
                }
            },
        }
    }
}

/// The value of an `application_protocols` parameter: at least one name. The
/// parameter is omitted when there is nothing to advertise, so an empty one is
/// malformed.
pub open spec fn protocols_in(s: Seq<u8>) -> Result<Seq<Seq<char>>, ErrorView> {
    match names_in(s) {
        Ok(names) if names.len() == 0 => Err(
            ErrorView::InvalidProtocol("empty application_protocols"@),
        ),
        r => r,
    }
}

/// The value of a parameter that holds one integer and nothing after it.
pub open spec fn integer_in(s: Seq<u8>) -> Result<u64, ErrorView> {
    match one(s) {
        Some((v, rest)) if rest.len() == 0 => Ok(v),
        _ => Err(ErrorView::Short),
    }
}

/// Reading parameters off `s` into `p`, where those in `seen` were read before.
/// No known parameter may come twice. Unknown ones are skipped.
#[verifier::opaque]
pub open spec fn params_in(s: Seq<u8>, seen: Set<u64>, p: ParamsView) -> Result<
    ParamsView,
    ErrorView,
>
    decreases s.len(),
{
    if s.len() == 0 {
        Ok(p)
    } else {
        match one(s) {
            None => Err(ErrorView::Short),
            Some((id, s1)) => match prefixed(s1) {
                None => Err(ErrorView::Short),
                Some((value, rest)) => {
                    proof {
                        lemma_one_shrinks(s);
                        lemma_one_shrinks(s1);
                    }
                    if id == APPLICATION_PROTOCOLS_ID {
                        if seen.contains(id) {
                            Err(ErrorView::DuplicateParam(id))
                        } else {
                            match protocols_in(value) {
                                Err(e) => Err(e),
                                Ok(names) => params_in(
                                    rest,
                                    seen.insert(id),
                                    ParamsView { protocols: names, ..p },
                                ),
                            }
                        }
                    } else if is_integer_param(id) {
                        if seen.contains(id) {
                            Err(ErrorView::DuplicateParam(id))
                        } else {
                            match integer_in(value) {
                                Err(e) => Err(e),
                                Ok(v) => params_in(rest, seen.insert(id), p.with(id, v)),
                            }
                        }
                    } else {
                        params_in(rest, seen, p)
                    }
                },
            },
        }
    }
}

/// What `s` holds. `max_record_size` defaults to 16382 when omitted, not 0.
pub open spec fn decoded_params(s: Seq<u8>) -> Result<ParamsView, ErrorView> {
    params_in(
        s,
        Set::empty(),
        ParamsView { max_record_size: DEFAULT_MAX_RECORD_SIZE, ..no_params() },
    )
}

/// What reading names does when the names `head` come first.
spec fn after_names(head: Seq<Seq<char>>, rest: Result<Seq<Seq<char>>, ErrorView>) -> Result<
    Seq<Seq<char>>,
    ErrorView,
> {
    match rest {
        Ok(more) => Ok(head + more),
        Err(e) => Err(e),
    }
}

/// Names in front of other names are read first.
proof fn lemma_names(names: Seq<Seq<char>>, rest: Seq<u8>)
    requires
        names_fit(names),
    ensures
        names_in(names_encoding(names) + rest) == after_names(names, names_in(rest)),
    decreases names.len(),
{
    if names.len() == 0 {
        assert(names_encoding(names) + rest =~= rest);
        if let Ok(more) = names_in(rest) {
            assert(names + more =~= more);
        }
    } else {
        let name = encode_utf8(names.last());
        let front = prefixed_encoding(name) + rest;
        assert(names_encoding(names) + rest =~= names_encoding(names.drop_last()) + front);
        assert(names_fit(names.drop_last())) by {
            assert forall|i: int| 0 <= i < names.len() - 1 implies encode_utf8(
                #[trigger] names.drop_last()[i],
            ).len() <= VARINT_MAX by {
                assert(names.drop_last()[i] == names[i]);
            }
        }
        lemma_names(names.drop_last(), front);
        assert(name.len() <= VARINT_MAX);
        lemma_prefixed(name, rest);
        assert(front.len() > 0) by {
            lemma_round_trip(name.len() as u64, Seq::empty());
        }
        encode_utf8_valid_utf8(names.last());
        encode_utf8_decode_utf8(names.last());
        assert(names_in(front) == after_names(seq![names.last()], names_in(rest)));
        if let Ok(more) = names_in(rest) {
            assert(names.drop_last() + (seq![names.last()] + more) =~= names + more);
        }
    }
}

/// A list of names reads back as itself.
proof fn lemma_names_round_trip(names: Seq<Seq<char>>)
    requires
        names_fit(names),
    ensures
        names_in(names_encoding(names)) == Ok::<_, ErrorView>(names),
{
    lemma_names(names, Seq::empty());
    assert(names_encoding(names) + Seq::empty() =~= names_encoding(names));
    assert(names + Seq::empty() =~= names);
}

/// The identifiers read before, once `id` was read unless its value was left out.
spec fn seen_after(seen: Set<u64>, id: u64, v: u64) -> Set<u64> {
    if v == 0 {
        seen
    } else {
        seen.insert(id)
    }
}

/// A parameter in front of others is read first.
proof fn lemma_param(id: u64, v: u64, rest: Seq<u8>, seen: Set<u64>, p: ParamsView)
    requires
        is_integer_param(id),
        v <= VARINT_MAX,
        !seen.contains(id),
    ensures
        params_in(param_encoding(id, v) + rest, seen, p) == params_in(
            rest,
            seen_after(seen, id, v),
            if v == 0 {
                p
            } else {
                p.with(id, v)
            },
        ),
{
    reveal(params_in);
    reveal(param_encoding);
    if v == 0 {
        assert(param_encoding(id, v) + rest =~= rest);
    } else {
        let s = param_encoding(id, v) + rest;
        assert(s =~= encoding(id) + (prefixed_encoding(encoding(v)) + rest));
        lemma_one(id, prefixed_encoding(encoding(v)) + rest);
        lemma_round_trip(id, Seq::empty());
        lemma_round_trip(v, Seq::empty());
        lemma_prefixed(encoding(v), rest);
        lemma_one(v, Seq::empty());
        assert(encoding(v) + Seq::empty() =~= encoding(v));
    }
}

/// The protocols are read last.
proof fn lemma_protocols_param(names: Seq<Seq<char>>, seen: Set<u64>, p: ParamsView)
    requires
        names_fit(names),
        names_encoding(names).len() <= VARINT_MAX,
        !seen.contains(APPLICATION_PROTOCOLS_ID),
        p.protocols.len() == 0,
    ensures
        params_in(protocols_encoding(names), seen, p) == Ok::<_, ErrorView>(
            ParamsView { protocols: names, ..p },
        ),
{
    reveal(params_in);
    if names.len() == 0 {
        assert(names =~= p.protocols);
    } else {
        let value = names_encoding(names);
        let p1 = ParamsView { protocols: names, ..p };
        lemma_one(APPLICATION_PROTOCOLS_ID, prefixed_encoding(value));
        lemma_round_trip(APPLICATION_PROTOCOLS_ID, Seq::empty());
        lemma_prefixed(value, Seq::empty());
        assert(prefixed_encoding(value) + Seq::empty() =~= prefixed_encoding(value));
        lemma_names_round_trip(names);
        assert(params_in(Seq::empty(), seen.insert(APPLICATION_PROTOCOLS_ID), p1) == Ok::<
            _,
            ErrorView,
        >(p1));
    }
}

/// Ten pieces in a row, taken apart from the front.
proof fn lemma_ten_pieces(
    a: Seq<u8>,
    b: Seq<u8>,
    c: Seq<u8>,
    d: Seq<u8>,
    e: Seq<u8>,
    f: Seq<u8>,
    g: Seq<u8>,
    h: Seq<u8>,
    i: Seq<u8>,
    j: Seq<u8>,
)
    ensures
        a + b + c + d + e + f + g + h + i + j == a + (b + (c + (d + (e + (f + (g + (h + (i
            + j)))))))),
{
    assert(a + b + c + d + e + f + g + h + i + j =~= a + (b + (c + (d + (e + (f + (g + (h + (i
        + j)))))))));
}

/// Law: transport parameters read back as they were written. A record size of
/// zero is not written and reads as the default.
pub proof fn lemma_params_round_trip(p: ParamsView)
    requires
        p.encodable(),
    ensures
        decoded_params(params_encoding(p)) == Ok::<_, ErrorView>(
            ParamsView {
                max_record_size: if p.max_record_size == 0 {
                    DEFAULT_MAX_RECORD_SIZE
                } else {
                    p.max_record_size
                },
                ..p
            },
        ),
{
    let p0 = ParamsView { max_record_size: DEFAULT_MAX_RECORD_SIZE, ..no_params() };
    let e10 = protocols_encoding(p.protocols);
    let e9 = param_encoding(MAX_RECORD_SIZE_ID, p.max_record_size) + e10;
    let e8 = param_encoding(MAX_DATAGRAM_FRAME_SIZE, p.max_datagram_frame_size) + e9;
    let e7 = param_encoding(INITIAL_MAX_STREAMS_UNI, p.initial_max_streams_uni) + e8;
    let e6 = param_encoding(INITIAL_MAX_STREAMS_BIDI, p.initial_max_streams_bidi) + e7;
    let e5 = param_encoding(INITIAL_MAX_STREAM_DATA_UNI, p.initial_max_stream_data_uni) + e6;
    let e4 = param_encoding(
        INITIAL_MAX_STREAM_DATA_BIDI_REMOTE,
        p.initial_max_stream_data_bidi_remote,
    ) + e5;
    let e3 = param_encoding(
        INITIAL_MAX_STREAM_DATA_BIDI_LOCAL,
        p.initial_max_stream_data_bidi_local,
    ) + e4;
    let e2 = param_encoding(INITIAL_MAX_DATA, p.initial_max_data) + e3;
    let e1 = param_encoding(MAX_IDLE_TIMEOUT, p.max_idle_timeout) + e2;
    lemma_ten_pieces(
        param_encoding(MAX_IDLE_TIMEOUT, p.max_idle_timeout),
        param_encoding(INITIAL_MAX_DATA, p.initial_max_data),
        param_encoding(INITIAL_MAX_STREAM_DATA_BIDI_LOCAL, p.initial_max_stream_data_bidi_local),
        param_encoding(INITIAL_MAX_STREAM_DATA_BIDI_REMOTE, p.initial_max_stream_data_bidi_remote),
        param_encoding(INITIAL_MAX_STREAM_DATA_UNI, p.initial_max_stream_data_uni),
        param_encoding(INITIAL_MAX_STREAMS_BIDI, p.initial_max_streams_bidi),
        param_encoding(INITIAL_MAX_STREAMS_UNI, p.initial_max_streams_uni),
        param_encoding(MAX_DATAGRAM_FRAME_SIZE, p.max_datagram_frame_size),
        param_encoding(MAX_RECORD_SIZE_ID, p.max_record_size),
        e10,
    );
    assert(params_encoding(p) == e1);
    let p1 = ParamsView { max_idle_timeout: p.max_idle_timeout, ..p0 };
    let p2 = ParamsView { initial_max_data: p.initial_max_data, ..p1 };
    let p3 = ParamsView {
        initial_max_stream_data_bidi_local: p.initial_max_stream_data_bidi_local,
        ..p2
    };
    let p4 = ParamsView {
        initial_max_stream_data_bidi_remote: p.initial_max_stream_data_bidi_remote,
        ..p3
    };
    let p5 = ParamsView { initial_max_stream_data_uni: p.initial_max_stream_data_uni, ..p4 };
    let p6 = ParamsView { initial_max_streams_bidi: p.initial_max_streams_bidi, ..p5 };
    let p7 = ParamsView { initial_max_streams_uni: p.initial_max_streams_uni, ..p6 };
    let p8 = ParamsView { max_datagram_frame_size: p.max_datagram_frame_size, ..p7 };
    let p9 = ParamsView {
        max_record_size: if p.max_record_size == 0 {
            DEFAULT_MAX_RECORD_SIZE
        } else {
            p.max_record_size
        },
        ..p8
    };
    let s0 = Set::<u64>::empty();
    let s1 = seen_after(s0, MAX_IDLE_TIMEOUT, p.max_idle_timeout);
    let s2 = seen_after(s1, INITIAL_MAX_DATA, p.initial_max_data);
    let s3 = seen_after(
        s2,
        INITIAL_MAX_STREAM_DATA_BIDI_LOCAL,
        p.initial_max_stream_data_bidi_local,
    );
    let s4 = seen_after(
        s3,
        INITIAL_MAX_STREAM_DATA_BIDI_REMOTE,
        p.initial_max_stream_data_bidi_remote,
    );
    let s5 = seen_after(s4, INITIAL_MAX_STREAM_DATA_UNI, p.initial_max_stream_data_uni);
    let s6 = seen_after(s5, INITIAL_MAX_STREAMS_BIDI, p.initial_max_streams_bidi);
    let s7 = seen_after(s6, INITIAL_MAX_STREAMS_UNI, p.initial_max_streams_uni);
    let s8 = seen_after(s7, MAX_DATAGRAM_FRAME_SIZE, p.max_datagram_frame_size);
    let s9 = seen_after(s8, MAX_RECORD_SIZE_ID, p.max_record_size);
    lemma_param(MAX_IDLE_TIMEOUT, p.max_idle_timeout, e2, s0, p0);
    lemma_param(INITIAL_MAX_DATA, p.initial_max_data, e3, s1, p1);
    lemma_param(
        INITIAL_MAX_STREAM_DATA_BIDI_LOCAL,
        p.initial_max_stream_data_bidi_local,
        e4,
        s2,
        p2,
    );
    lemma_param(
        INITIAL_MAX_STREAM_DATA_BIDI_REMOTE,
        p.initial_max_stream_data_bidi_remote,
        e5,
        s3,
        p3,
    );
    lemma_param(INITIAL_MAX_STREAM_DATA_UNI, p.initial_max_stream_data_uni, e6, s4, p4);
    lemma_param(INITIAL_MAX_STREAMS_BIDI, p.initial_max_streams_bidi, e7, s5, p5);
    lemma_param(INITIAL_MAX_STREAMS_UNI, p.initial_max_streams_uni, e8, s6, p6);
    lemma_param(MAX_DATAGRAM_FRAME_SIZE, p.max_datagram_frame_size, e9, s7, p7);
    lemma_param(MAX_RECORD_SIZE_ID, p.max_record_size, e10, s8, p8);
    lemma_protocols_param(p.protocols, s9, p9);
}

/// Returns the encoded size of a varint value.
pub fn varint_size(v: u64) -> (r: usize)
    ensures
        r == size_of_varint(v),
{
    if v < (1 << 6) {
        proof {
            assert((1u64 << 6) == 0x40) by (bit_vector);
        }
        1
    } else if v < (1 << 14) {
        proof {
            assert((1u64 << 6) == 0x40) by (bit_vector);
            assert((1u64 << 14) == 0x4000) by (bit_vector);
        }
        2
    } else if v < (1 << 30) {
        proof {
            assert((1u64 << 14) == 0x4000) by (bit_vector);
            assert((1u64 << 30) == 0x4000_0000) by (bit_vector);
        }
        4
    } else {
        proof {
            assert((1u64 << 30) == 0x4000_0000) by (bit_vector);
        }
        8
    }
}

/// Append a parameter that holds one integer.
fn write_param(buf: &mut BytesMut, id: VarInt, value: u64) -> (r: Result<(), Error>)
    ensures
        match r {
            Ok(_) => value <= VARINT_MAX && written(*final(buf)) == written(*old(buf))
                + param_encoding(id@, value),
            Err(e) => value > VARINT_MAX && e is FlowControlError,
        },
{
    proof {
        reveal(param_encoding);
    }
    if value == 0 {
        assert(written(*buf) =~= written(*old(buf)) + param_encoding(id@, value));
        return Ok(());
    }
    let val = match VarInt::from_u64(value) {
        Ok(v) => v,
        Err(e) => return Err(Error::from(e)),
    };
    let size: usize = varint_size(value);
    id.encode(buf);
    VarInt::from_u32(size as u32).encode(buf);
    val.encode(buf);
    proof {
        lemma_round_trip(value, Seq::empty());
        assert(written(*buf) =~= written(*old(buf)) + param_encoding(id@, value));
    }
    Ok(())
}

/// Decode the application_protocols value: a sequence of length-prefixed UTF-8
/// protocol names that consumes the whole parameter payload.
fn decode_protocols(data: &mut Bytes) -> (r: Result<Vec<String>, Error>)
    ensures
        match protocols_in(contents(*old(data))) {
            Ok(names) => r matches Ok(v) && texts(v@) == names,
            Err(e) => r matches Err(x) && x@ == e,
        },
{
    let mut out: Vec<String> = Vec::new();
    let ghost all = contents(*data);
    assert(names_in(all) == names_in(contents(*data)));
    assert(names_in(all) matches Ok(names) ==> names =~= texts(out@) + names);
    while !data.is_empty()
        invariant
            all == contents(*old(data)),
            match names_in(contents(*data)) {
                Ok(more) => names_in(all) == Ok::<_, ErrorView>(texts(out@) + more),
                Err(e) => names_in(all) == Err::<Seq<Seq<char>>, _>(e),
            },
        decreases contents(*data).len(),
    {
        let ghost before = contents(*data);
        let ghost had = texts(out@);
        proof {
            lemma_one_shrinks(before);
        }
        let name = read_prefixed(data)?;
        let protocol = match from_utf8(as_slice(&name)) {
            Some(s) => s,
            None => return Err(Error::InvalidProtocol(debug(&name))),
        };
        out.push(protocol.to_string());
        proof {
            assert(texts(out@) =~= had + seq![protocol@]);
            if let Ok(more) = names_in(contents(*data)) {
                assert(had + (seq![protocol@] + more) =~= texts(out@) + more);
            }
        }
    }
    assert(texts(out@) + Seq::<Seq<char>>::empty() =~= texts(out@));
    if out.len() == 0 {
        return Err(Error::InvalidProtocol("empty application_protocols".to_string()));
    }
    Ok(out)
}

/// Decode a single VarInt parameter, validating that the entire payload is consumed.
fn decode_varint_param(data: &mut Bytes) -> (r: Result<u64, Error>)
    ensures
        match integer_in(contents(*old(data))) {
            Ok(v) => r == Ok::<u64, Error>(v),
            Err(e) => r matches Err(x) && x@ == e,
        },
{
    let value: u64 = read_one(data)?.into_inner();
    if !data.is_empty() {
        return Err(Error::Short);
    }
    Ok(value)
}

impl Default for TransportParams {
    fn default() -> (r: TransportParams)
        ensures
            r@ == no_params(),
    {
        let r = TransportParams {
            max_idle_timeout: 0,
            initial_max_data: 0,
            initial_max_stream_data_bidi_local: 0,
            initial_max_stream_data_bidi_remote: 0,
            initial_max_stream_data_uni: 0,
            initial_max_streams_bidi: 0,
            initial_max_streams_uni: 0,
            max_datagram_frame_size: 0,
            max_record_size: 0,
            protocols: Vec::new(),
        };
        assert(texts(r.protocols@) =~= Seq::empty());
        r
    }
}

/// Copy a list of names.
pub(crate) fn copy_names(names: &Vec<String>) -> (r: Vec<String>)
    ensures
        texts(r@) == texts(names@),
{
    let mut out: Vec<String> = Vec::new();
    let mut i: usize = 0;
    while i < names.len()
        invariant
            i <= names.len(),
            out.len() == i,
            forall|j: int| 0 <= j < i ==> (#[trigger] out[j])@ == names[j]@,
        decreases names.len() - i,
    {
        out.push(names[i].clone());
        i += 1;
    }
    assert(texts(out@) =~= texts(names@));
    out
}

impl Clone for TransportParams {
    fn clone(&self) -> (r: TransportParams)
        ensures
            r@ == self@,
    {
        TransportParams {
            max_idle_timeout: self.max_idle_timeout,
            initial_max_data: self.initial_max_data,
            initial_max_stream_data_bidi_local: self.initial_max_stream_data_bidi_local,
            initial_max_stream_data_bidi_remote: self.initial_max_stream_data_bidi_remote,
            initial_max_stream_data_uni: self.initial_max_stream_data_uni,
            initial_max_streams_bidi: self.initial_max_streams_bidi,
            initial_max_streams_uni: self.initial_max_streams_uni,
            max_datagram_frame_size: self.max_datagram_frame_size,
            max_record_size: self.max_record_size,
            protocols: copy_names(&self.protocols),
        }
    }
}

impl TransportParams {
    /// Encode transport parameters as a series of ID-length-value tuples.
    pub fn encode(&self) -> (r: Result<Bytes, Error>)
        ensures
            match r {
                Ok(b) => self@.encodable() && contents(b) == params_encoding(self@),
                Err(e) => !self@.encodable() && e is FlowControlError,
            },
    {
        let mut buf = BytesMut::new();
        write_param(&mut buf, VarInt::from_u32(0x01), self.max_idle_timeout)?;
        write_param(&mut buf, VarInt::from_u32(0x04), self.initial_max_data)?;
        write_param(&mut buf, VarInt::from_u32(0x05), self.initial_max_stream_data_bidi_local)?;
        write_param(&mut buf, VarInt::from_u32(0x06), self.initial_max_stream_data_bidi_remote)?;
        write_param(&mut buf, VarInt::from_u32(0x07), self.initial_max_stream_data_uni)?;
        write_param(&mut buf, VarInt::from_u32(0x08), self.initial_max_streams_bidi)?;
        write_param(&mut buf, VarInt::from_u32(0x09), self.initial_max_streams_uni)?;
        write_param(&mut buf, VarInt::from_u32(0x20), self.max_datagram_frame_size)?;
        let record_size_id = match VarInt::from_u64(MAX_RECORD_SIZE_ID) {
            Ok(id) => id,
            Err(e) => return Err(Error::from(e)),
        };
        write_param(&mut buf, record_size_id, self.max_record_size)?;
        let ghost fixed = written(buf);

        // application_protocols: a list of length-prefixed UTF-8 names. Omitted
        // entirely when empty so peers that don't negotiate stay byte-identical.
        let ghost names = texts(self.protocols@);
        if self.protocols.len() != 0 {
            let mut value = BytesMut::new();
            let mut i: usize = 0;
            while i < self.protocols.len()
                invariant
                    i <= self.protocols.len(),
                    names == texts(self.protocols@),
                    written(value) == names_encoding(names.take(i as int)),
                    names_fit(names.take(i as int)),
                decreases self.protocols.len() - i,
            {
                proof {
                    assert(names.take(i + 1).drop_last() =~= names.take(i as int));
                    assert(names.take(i + 1).last() == names[i as int]);
                    assert(!names_fit(names) || encode_utf8(names[i as int]).len() <= VARINT_MAX);
                    assert forall|j: int| 0 <= j < i implies encode_utf8(
                        #[trigger] names.take(i + 1)[j],
                    ).len() <= VARINT_MAX by {
                        assert(names.take(i + 1)[j] == names.take(i as int)[j]);
                    }
                }
                put_prefixed(&mut value, self.protocols[i].as_str().as_bytes())?;
                i += 1;
            }
            assert(names.take(i as int) =~= names);
            put_value(&mut buf, APPLICATION_PROTOCOLS_ID)?;
            let value = value.freeze();
            put_prefixed(&mut buf, as_slice(&value))?;
            assert(written(buf) =~= fixed + protocols_encoding(names));
        } else {
            assert(names_encoding(names) =~= Seq::empty());
            assert(written(buf) =~= fixed + protocols_encoding(names));
        }
        assert(written(buf) =~= params_encoding(self@));
        Ok(buf.freeze())
    }

    /// Decode transport parameters from bytes.
    pub fn decode(data: Bytes) -> (r: Result<TransportParams, Error>)
        ensures
            match decoded_params(contents(data)) {
                Ok(p) => r matches Ok(x) && x@ == p,
                Err(e) => r matches Err(x) && x@ == e,
            },
    {
        broadcast use vstd::std_specs::hash::group_hash_axioms;

        let mut input = data;
        let ghost all = contents(data);
        let mut params = TransportParams::default();
        params.max_record_size = DEFAULT_MAX_RECORD_SIZE;
        let mut seen: HashSet<u64> = HashSet::new();
        while !input.is_empty()
            invariant
                all == contents(data),
                decoded_params(all) == params_in(contents(input), seen@, params@),
            decreases contents(input).len(),
        {
            let ghost before = contents(input);
            let ghost had = params@;
            proof {
                reveal(params_in);
                lemma_one_shrinks(before);
                if let Some((id, s1)) = one(before) {
                    lemma_one_shrinks(s1);
                }
            }
            let id: u64 = read_one(&mut input)?.into_inner();
            let mut value = read_prefixed(&mut input)?;
            if id == APPLICATION_PROTOCOLS_ID {
                if !seen.insert(id) {
                    return Err(Error::DuplicateParam(id));
                }
                params.protocols = decode_protocols(&mut value)?;
            } else if id == MAX_IDLE_TIMEOUT || (INITIAL_MAX_DATA <= id && id
                <= INITIAL_MAX_STREAMS_UNI) || id == MAX_DATAGRAM_FRAME_SIZE || id
                == MAX_RECORD_SIZE_ID {
                if !seen.insert(id) {
                    return Err(Error::DuplicateParam(id));
                }
                let v: u64 = decode_varint_param(&mut value)?;
                if id == MAX_IDLE_TIMEOUT {
                    params.max_idle_timeout = v;
                } else if id == INITIAL_MAX_DATA {
                    params.initial_max_data = v;
                } else if id == INITIAL_MAX_STREAM_DATA_BIDI_LOCAL {
                    params.initial_max_stream_data_bidi_local = v;
                } else if id == INITIAL_MAX_STREAM_DATA_BIDI_REMOTE {
                    params.initial_max_stream_data_bidi_remote = v;
                } else if id == INITIAL_MAX_STREAM_DATA_UNI {
                    params.initial_max_stream_data_uni = v;
                } else if id == INITIAL_MAX_STREAMS_BIDI {
                    params.initial_max_streams_bidi = v;
                } else if id == INITIAL_MAX_STREAMS_UNI {
                    params.initial_max_streams_uni = v;
                } else if id == MAX_DATAGRAM_FRAME_SIZE {
                    params.max_datagram_frame_size = v;
                } else {
                    params.max_record_size = v;
                }
                assert(params@ =~= had.with(id, v));
            }
        }
        proof {
            reveal(params_in);
        }
        Ok(params)
    }
}

/// Whether `s` is a run of whole parameters: identifiers, each with its value
/// behind its length.
pub open spec fn whole_params(s: Seq<u8>) -> bool
    decreases s.len(),
{
    if s.len() == 0 {
        true
    } else {
        match one(s) {
            None => false,
            Some((_, s1)) => match prefixed(s1) {
                None => false,
                Some((_, rest)) => {
                    proof {
                        lemma_one_shrinks(s);
                        lemma_one_shrinks(s1);
                    }
                    whole_params(rest)
                },
            },
        }
    }
}

/// One parameter on the wire, whatever it holds.
pub open spec fn raw_param(id: u64, value: Seq<u8>) -> Seq<u8> {
    encoding(id) + prefixed_encoding(value)
}

/// Whether `s` is one whole parameter that is not known, in whatever form its
/// identifier and its length are written.
pub open spec fn unknown_param(s: Seq<u8>) -> bool {
    match one(s) {
        None => false,
        Some((id, s1)) => {
            &&& !is_integer_param(id)
            &&& id != APPLICATION_PROTOCOLS_ID
            &&& prefixed(s1) matches Some((_, rest))
            &&& rest.len() == 0
        },
    }
}

/// Reading goes on after an unknown parameter as if it had not been there.
proof fn lemma_unknown_skipped_from(
    before: Seq<u8>,
    unknown: Seq<u8>,
    after: Seq<u8>,
    seen: Set<u64>,
    p: ParamsView,
)
    requires
        whole_params(before),
        unknown_param(unknown),
    ensures
        params_in(before + unknown + after, seen, p) == params_in(before + after, seen, p),
    decreases before.len(),
{
    reveal(params_in);
    let s = before + unknown + after;
    let t = before + after;
    if before.len() == 0 {
        assert(s =~= unknown + after);
        assert(t =~= after);
        let (_, s1) = one(unknown)->0;
        let (_, rest) = prefixed(s1)->0;
        lemma_one_shrinks(unknown);
        lemma_one_more(unknown, after);
        lemma_prefixed_more(s1, after);
        assert(rest + after =~= after);
    } else {
        let tail = unknown + after;
        assert(s =~= before + tail);
        let (k, s1) = one(before)->0;
        let (v, rest) = prefixed(s1)->0;
        lemma_one_shrinks(before);
        lemma_one_shrinks(s1);
        lemma_one_more(before, tail);
        lemma_one_more(before, after);
        lemma_prefixed_more(s1, tail);
        lemma_prefixed_more(s1, after);
        assert(rest + tail =~= rest + unknown + after);
        if k == APPLICATION_PROTOCOLS_ID {
            if let Ok(names) = protocols_in(v) {
                let q = ParamsView { protocols: names, ..p };
                lemma_unknown_skipped_from(rest, unknown, after, seen.insert(k), q);
            }
        } else if is_integer_param(k) {
            if let Ok(n) = integer_in(v) {
                lemma_unknown_skipped_from(rest, unknown, after, seen.insert(k), p.with(k, n));
            }
        } else {
            lemma_unknown_skipped_from(rest, unknown, after, seen, p);
        }
    }
}

/// Law: an unknown parameter is skipped, wherever among the others it stands,
/// whatever it holds and in whatever form it is written.
pub proof fn lemma_unknown_param_skipped(before: Seq<u8>, unknown: Seq<u8>, after: Seq<u8>)
    requires
        whole_params(before),
        unknown_param(unknown),
    ensures
        decoded_params(before + unknown + after) == decoded_params(before + after),
{
    lemma_unknown_skipped_from(
        before,
        unknown,
        after,
        Set::empty(),
        ParamsView { max_record_size: DEFAULT_MAX_RECORD_SIZE, ..no_params() },
    );
}

/// Law: an identifier that is not known makes an unknown parameter with every
/// value.
pub proof fn lemma_raw_param_unknown(id: u64, value: Seq<u8>)
    requires
        id <= VARINT_MAX,
        value.len() <= VARINT_MAX,
        !is_integer_param(id),
        id != APPLICATION_PROTOCOLS_ID,
    ensures
        unknown_param(raw_param(id, value)),
{
    lemma_one(id, prefixed_encoding(value));
    lemma_prefixed(value, Seq::empty());
    assert(prefixed_encoding(value) + Seq::empty() =~= prefixed_encoding(value));
}

/// One parameter that holds one integer, zero or not, and what follows it.
proof fn lemma_integer_param_read(id: u64, v: u64, rest: Seq<u8>, seen: Set<u64>, p: ParamsView)
    requires
        is_integer_param(id),
        v <= VARINT_MAX,
    ensures
        params_in(encoding(id) + prefixed_encoding(encoding(v)) + rest, seen, p) == if seen.contains(
            id,
        ) {
            Err(ErrorView::DuplicateParam(id))
        } else {
            params_in(rest, seen.insert(id), p.with(id, v))
        },
{
    reveal(params_in);
    let s = encoding(id) + prefixed_encoding(encoding(v)) + rest;
    assert(s =~= encoding(id) + (prefixed_encoding(encoding(v)) + rest));
    lemma_one(id, prefixed_encoding(encoding(v)) + rest);
    lemma_round_trip(id, Seq::empty());
    lemma_round_trip(v, Seq::empty());
    lemma_prefixed(encoding(v), rest);
    lemma_one(v, Seq::empty());
    assert(encoding(v) + Seq::empty() =~= encoding(v));
}

/// Law: what each parameter is about, by its number, when a peer sends it alone. All
/// others are zero then, but for the record size of 16382.
pub proof fn lemma_param_numbers(id: u64, v: u64)
    requires
        v <= VARINT_MAX,
        id <= VARINT_MAX,
    ensures
        ({
            let r = decoded_params(encoding(id) + prefixed_encoding(encoding(v)));
            let none = ParamsView {
                max_idle_timeout: 0,
                initial_max_data: 0,
                initial_max_stream_data_bidi_local: 0,
                initial_max_stream_data_bidi_remote: 0,
                initial_max_stream_data_uni: 0,
                initial_max_streams_bidi: 0,
                initial_max_streams_uni: 0,
                max_datagram_frame_size: 0,
                max_record_size: 16382,
                protocols: Seq::empty(),
            };
            &&& decoded_params(Seq::empty()) == Ok::<_, ErrorView>(none)
            &&& id == 0x01 ==> r == Ok::<_, ErrorView>(ParamsView { max_idle_timeout: v, ..none })
            &&& id == 0x04 ==> r == Ok::<_, ErrorView>(ParamsView { initial_max_data: v, ..none })
            &&& id == 0x05 ==> r == Ok::<_, ErrorView>(
                ParamsView { initial_max_stream_data_bidi_local: v, ..none },
            )
            &&& id == 0x06 ==> r == Ok::<_, ErrorView>(
                ParamsView { initial_max_stream_data_bidi_remote: v, ..none },
            )
            &&& id == 0x07 ==> r == Ok::<_, ErrorView>(
                ParamsView { initial_max_stream_data_uni: v, ..none },
            )
            &&& id == 0x08 ==> r == Ok::<_, ErrorView>(
                ParamsView { initial_max_streams_bidi: v, ..none },
            )
            &&& id == 0x09 ==> r == Ok::<_, ErrorView>(
                ParamsView { initial_max_streams_uni: v, ..none },
            )
            &&& id == 0x20 ==> r == Ok::<_, ErrorView>(
                ParamsView { max_datagram_frame_size: v, ..none },
            )
            &&& id == 0x0571c59429cd0845 ==> r == Ok::<_, ErrorView>(
                ParamsView { max_record_size: v, ..none },
            )
        }),
{
    reveal(params_in);
    let s = encoding(id) + prefixed_encoding(encoding(v));
    let start = ParamsView { max_record_size: DEFAULT_MAX_RECORD_SIZE, ..no_params() };
    assert(s + Seq::<u8>::empty() =~= s);
    if is_integer_param(id) {
        lemma_integer_param_read(id, v, Seq::empty(), Set::empty(), start);
    }
}

/// Law: parameters of different numbers are taken one after the other, and each
/// changes nothing but its own value. The same one twice is refused.
pub proof fn lemma_params_in_turn(id: u64, v: u64, other: u64, w: u64)
    requires
        v <= VARINT_MAX,
        w <= VARINT_MAX,
        id == 0x01 || 0x04 <= id <= 0x09 || id == 0x20 || id == 0x0571c59429cd0845,
        other == 0x01 || 0x04 <= other <= 0x09 || other == 0x20 || other == 0x0571c59429cd0845,
    ensures
        ({
            let a = encoding(id) + prefixed_encoding(encoding(v));
            let b = encoding(other) + prefixed_encoding(encoding(w));
            let r = decoded_params(a + b);
            &&& id == other ==> r == Err::<ParamsView, _>(ErrorView::DuplicateParam(id))
            &&& id != other ==> r is Ok && r == decoded_params(b + a)
        }),
{
    reveal(params_in);
    let a = encoding(id) + prefixed_encoding(encoding(v));
    let b = encoding(other) + prefixed_encoding(encoding(w));
    let e = Seq::<u8>::empty();
    let start = ParamsView { max_record_size: DEFAULT_MAX_RECORD_SIZE, ..no_params() };
    assert(a + e =~= a);
    assert(b + e =~= b);
    lemma_integer_param_read(id, v, b, Set::empty(), start);
    lemma_integer_param_read(other, w, e, Set::empty().insert(id), start.with(id, v));
    lemma_integer_param_read(other, w, a, Set::empty(), start);
    lemma_integer_param_read(id, v, e, Set::empty().insert(other), start.with(other, w));
}

/// Law: a list of protocols is never empty, and an integer has nothing behind it.
pub proof fn lemma_malformed_params(id: u64, v: u64, junk: Seq<u8>)
    requires
        v <= VARINT_MAX,
        id == 0x01 || 0x04 <= id <= 0x09 || id == 0x20 || id == 0x0571c59429cd0845,
        junk.len() > 0,
        encoding(v).len() + junk.len() <= VARINT_MAX,
    ensures
        decoded_params(encoding(0x3d4f9c2a8b1e6075) + prefixed_encoding(Seq::empty())) == Err::<
            ParamsView,
            _,
        >(ErrorView::InvalidProtocol("empty application_protocols"@)),
        decoded_params(encoding(id) + prefixed_encoding(encoding(v) + junk)) == Err::<
            ParamsView,
            _,
        >(ErrorView::Short),
{
    reveal(params_in);
    let none = Seq::<u8>::empty();
    let value = prefixed_encoding(none);
    assert(value + none =~= value);
    lemma_one(APPLICATION_PROTOCOLS_ID, value);
    lemma_round_trip(APPLICATION_PROTOCOLS_ID, none);
    lemma_prefixed(none, none);
    let long = encoding(v) + junk;
    lemma_round_trip(v, junk);
    lemma_one(v, junk);
    lemma_round_trip(id, none);
    lemma_one(id, prefixed_encoding(long));
    assert(prefixed_encoding(long) + none =~= prefixed_encoding(long));
    lemma_prefixed(long, none);
}

/// Law: how parameters are written: each behind its number and its length, in the
/// order of their numbers, and left out where it is zero or an empty list.
pub proof fn lemma_params_written(id: u64, v: u64, p: ParamsView)
    ensures
        v == 0 ==> param_encoding(id, v).len() == 0,
        v > 0 ==> param_encoding(id, v) == encoding(id) + encoding(encoding(v).len() as u64)
            + encoding(v),
        params_encoding(p) == param_encoding(0x01, p.max_idle_timeout) + param_encoding(
            0x04,
            p.initial_max_data,
        ) + param_encoding(0x05, p.initial_max_stream_data_bidi_local) + param_encoding(
            0x06,
            p.initial_max_stream_data_bidi_remote,
        ) + param_encoding(0x07, p.initial_max_stream_data_uni) + param_encoding(
            0x08,
            p.initial_max_streams_bidi,
        ) + param_encoding(0x09, p.initial_max_streams_uni) + param_encoding(
            0x20,
            p.max_datagram_frame_size,
        ) + param_encoding(0x0571c59429cd0845, p.max_record_size) + if p.protocols.len() == 0 {
            Seq::empty()
        } else {
            encoding(0x3d4f9c2a8b1e6075) + prefixed_encoding(names_encoding(p.protocols))
        },
{
    reveal(param_encoding);
    if v > 0 {
        assert(param_encoding(id, v) =~= encoding(id) + encoding(encoding(v).len() as u64)
            + encoding(v));
    }
}

/// Law: names are written one after the other, each in UTF-8 behind its length.
pub proof fn lemma_names_written(names: Seq<Seq<char>>, name: Seq<char>)
    ensures
        names_encoding(Seq::empty()).len() == 0,
        names_encoding(names.push(name)) == names_encoding(names) + encoding(
            encode_utf8(name).len() as u64,
        ) + encode_utf8(name),
{
    let all = names.push(name);
    assert(all.drop_last() =~= names);
    assert(names_encoding(all) =~= names_encoding(names) + encoding(encode_utf8(name).len() as u64)
        + encode_utf8(name));
}

/// Law: a protocol name that is not UTF-8 is refused, and shown.
pub proof fn lemma_garbled_name(name: Seq<u8>)
    requires
        name.len() <= VARINT_MAX - 8,
        !valid_utf8(name),
    ensures
        decoded_params(
            encoding(0x3d4f9c2a8b1e6075) + prefixed_encoding(prefixed_encoding(name)),
        ) == Err::<ParamsView, _>(ErrorView::InvalidProtocol(debug_text(name))),
{
    reveal(params_in);
    let none = Seq::<u8>::empty();
    let value = prefixed_encoding(name);
    lemma_round_trip(name.len() as u64, name);
    lemma_round_trip(APPLICATION_PROTOCOLS_ID, none);
    lemma_one(APPLICATION_PROTOCOLS_ID, prefixed_encoding(value));
    assert(prefixed_encoding(value) + none =~= prefixed_encoding(value));
    lemma_prefixed(value, none);
    assert(value + none =~= value);
    lemma_prefixed(name, none);
}

/// Law: parameters can be written where every number and length has at most 62 bits.
pub proof fn lemma_params_encodable(p: ParamsView)
    ensures
        p.encodable() == ({
            let most = 0x3fff_ffff_ffff_ffffu64;
            &&& p.max_idle_timeout <= most
            &&& p.initial_max_data <= most
            &&& p.initial_max_stream_data_bidi_local <= most
            &&& p.initial_max_stream_data_bidi_remote <= most
            &&& p.initial_max_stream_data_uni <= most
            &&& p.initial_max_streams_bidi <= most
            &&& p.initial_max_streams_uni <= most
            &&& p.max_datagram_frame_size <= most
            &&& p.max_record_size <= most
            &&& names_encoding(p.protocols).len() <= most
            &&& forall|i: int|
                0 <= i < p.protocols.len() ==> encode_utf8(#[trigger] p.protocols[i]).len() <= most
        }),
{
}

} // verus!
