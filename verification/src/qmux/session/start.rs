//! Starting a session, and what its messages hold.

use bytes::Bytes;
use vstd::prelude::*;

use super::model::{SessionView, start};
use super::state::SessionState;
use crate::buffer::contents;
use crate::qmux::config::{Config, Protocol, ProtocolView};
use crate::qmux::error::{Error, ErrorView};
use super::outbound::wire_bytes;
use crate::qmux::proto::frame::{
    Frame, FrameView, decoded_form, decoded_forms, frames_in, lemma_frame_round_trip,
    lemma_record_round_trip, lemma_wt_round_trip, message_in, qmux_encoding, record_encoding,
    view_of, views,
};
use crate::qmux::proto::params::texts;
use crate::qmux::proto::version::Version;
use crate::qmux::proto::wire::one;
use crate::qmux::protocol::{is_token, validate_protocol};
use crate::qmux::transport::StreamReader;

verus! {

/// The frames of one message of the transport. A draft-01 message is a record with
/// any number of them; the others hold one, or padding.
pub open spec fn frames_of(s: Seq<u8>, version: Version) -> Result<Seq<FrameView>, ErrorView> {
    if version is QMux01 {
        frames_in(s)
    } else {
        match message_in(s, version) {
            Ok(Some(f)) => Ok(seq![f]),
            Ok(None) => Ok(Seq::empty()),
            Err(e) => Err(e),
        }
    }
}

/// What a frame is received as, where it is one: the legacy format does not carry
/// the final size of a reset.
pub open spec fn received_form(f: FrameView, version: Version) -> Option<FrameView> {
    if version is WebTransport {
        match f {
            FrameView::ResetStream { id, code, .. } => Some(
                FrameView::ResetStream { id, code, final_size: 0 },
            ),
            f => Some(f),
        }
    } else {
        decoded_form(f)
    }
}

/// Law: what one side puts on the wire as a message, the other receives as the same
/// frame.
pub proof fn lemma_message_round_trip(f: FrameView, version: Version)
    requires
        f.supported(version),
        f.encodable_in(version),
    ensures
        frames_of(wire_bytes(f, version), version) == Ok::<_, ErrorView>(
            match received_form(f, version) {
                Some(g) => seq![g],
                None => Seq::empty(),
            },
        ),
{
    let s = wire_bytes(f, version);
    if version is WebTransport {
        lemma_wt_round_trip(f);
    } else if version is QMux00 {
        lemma_frame_round_trip(f, Seq::empty());
        assert(s + Seq::empty() =~= s);
        lemma_frame_delimited_len(f);
    } else {
        let list = seq![f];
        lemma_record_round_trip(list);
        assert(list.drop_first() =~= Seq::empty());
        assert(record_encoding(list.drop_first()) =~= Seq::empty());
        assert(record_encoding(list) =~= s);
        let none = decoded_forms(list.drop_first());
        assert(none =~= Seq::empty());
        if let Some(g) = decoded_form(f) {
            assert(seq![g] + none =~= seq![g]);
        }
    }
}

/// An encoded frame is not empty.
proof fn lemma_frame_delimited_len(f: FrameView)
    requires
        f.encodable(),
    ensures
        qmux_encoding(f).len() > 0,
{
    lemma_frame_round_trip(f, Seq::empty());
    let s = qmux_encoding(f);
    assert(s + Seq::empty() =~= s);
    if s.len() == 0 {
        assert(one(s) is None);
    }
}

/// Decode one message of the transport into the frames to process, in order.
pub fn decode_message(data: Bytes, version: Version) -> (r: Result<Vec<Frame>, Error>)
    ensures
        match frames_of(contents(data), version) {
            Ok(frames) => r matches Ok(v) && views(v@) == frames,
            Err(e) => r matches Err(x) && x@ == e,
        },
{
    if version == Version::QMux01 {
        return Frame::decode_record(data);
    }
    let mut frames: Vec<Frame> = Vec::new();
    if let Some(frame) = Frame::decode(data, version)? {
        frames.push(frame);
        assert(views(frames@) =~= seq![frame@]);
    } else {
        assert(views(frames@) =~= Seq::empty());
    }
    Ok(frames)
}

/// The application protocols that a session advertises in-band.
pub open spec fn advertised(p: ProtocolView) -> Seq<Seq<char>> {
    match p {
        ProtocolView::Negotiate(list) => list,
        _ => Seq::empty(),
    }
}

/// Whether `e` names the first of `names` that is not a token.
pub open spec fn names_first_invalid(names: Seq<Seq<char>>, e: ErrorView) -> bool {
    exists|i: int|
        0 <= i < names.len() && !is_token(#[trigger] names[i]) && e == ErrorView::InvalidProtocol(
            names[i],
        ) && forall|j: int| 0 <= j < i ==> is_token(#[trigger] names[j])
}

/// Validate the protocol names that a session would advertise.
pub fn validate_config(config: &Config) -> (r: Result<(), Error>)
    ensures
        match r {
            Ok(_) => forall|i: int|
                0 <= i < advertised(config.protocol@).len() ==> is_token(
                    #[trigger] advertised(config.protocol@)[i],
                ),
            Err(e) => names_first_invalid(advertised(config.protocol@), e@),
        },
{
    if let Protocol::Negotiate(protocols) = &config.protocol {
        let ghost names = texts(protocols@);
        let mut i: usize = 0;
        while i < protocols.len()
            invariant
                i <= protocols@.len(),
                names == texts(protocols@),
                names == advertised(config.protocol@),
                forall|j: int| 0 <= j < i ==> is_token(#[trigger] names[j]),
            decreases protocols@.len() - i,
        {
            match validate_protocol(protocols[i].as_str()) {
                Ok(_) => {},
                Err(e) => {
                    assert(!is_token(names[i as int]));
                    return Err(e);
                },
            }
            i += 1;
        }
    }
    Ok(())
}

/// Start a session over a byte stream, validating any advertised protocol names
/// first: its state, the first frame to send, and the reader that delimits what
/// arrives.
pub fn build_stream_session(config: Config, is_server: bool) -> (r: Result<
    (SessionState, Option<Frame>, StreamReader),
    Error,
>)
    ensures
        match r {
            Ok((session, first, reader)) => {
                &&& forall|i: int|
                    0 <= i < advertised(config.protocol@).len() ==> is_token(
                        #[trigger] advertised(config.protocol@)[i],
                    )
                &&& session@ == start(is_server, config.version, config.protocol@, config.params())
                &&& view_of(first) == if config.version.qmux() {
                    Some(FrameView::TransportParameters(config.params()))
                } else {
                    None::<FrameView>
                }
                &&& reader.version() == config.version
                &&& reader.limit() == config.max_record_size
                &&& reader.pending() == Seq::<u8>::empty()
                &&& !reader.failed()
            },
            Err(e) => names_first_invalid(advertised(config.protocol@), e@),
        },
{
    validate_config(&config)?;
    let reader = StreamReader::new(config.version, config.max_record_size);
    let (session, first) = SessionState::new(is_server, config);
    Ok((session, first, reader))
}

/// How the wait for the peer's transport parameters ended.
pub enum Handshake {
    /// They arrived.
    Established,
    /// The session ended first.
    Ended,
    /// They did not arrive in time.
    TimedOut,
}

/// Decide what the end of the wait means. A handshake that took too long is
/// aborted, with a frame that tells the peer.
pub fn finish_handshake(session: &mut SessionState, outcome: Handshake) -> (r: Result<
    (),
    (Error, Option<Frame>),
>)
    ensures
        match outcome {
            Handshake::Established => r is Ok && final(session)@ == old(session)@,
            Handshake::Ended => {
                &&& r matches Err((e, None))
                &&& e@ == match old(session)@.closed {
                    Some(reason) => reason,
                    None => ErrorView::Closed,
                }
                &&& final(session)@ == old(session)@
            },
            Handshake::TimedOut => {
                &&& r matches Err((e, Some(f)))
                &&& e is HandshakeTimeout
                &&& f@ == (FrameView::ConnectionClose { code: 0, reason: "handshake timeout"@ })
                &&& final(session)@ == (SessionView {
                    closed: Some(ErrorView::HandshakeTimeout),
                    ..old(session)@
                })
            },
        },
{
    match outcome {
        Handshake::Established => Ok(()),
        Handshake::Ended => {
            let e = match session.close_reason() {
                Some(e) => e,
                None => Error::Closed,
            };
            Err((e, None))
        },
        Handshake::TimedOut => {
            let frame = session.abort_handshake();
            Err((Error::HandshakeTimeout, Some(frame)))
        },
    }
}

} // verus!
