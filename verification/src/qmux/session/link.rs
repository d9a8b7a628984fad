//! Both ends of a link together: what one side sends is what the other receives.

use vstd::prelude::*;

use super::laws::{
    data_in, expecting, is_data, is_end, is_reset, lemma_in_order_delivery, orderly, received_data,
    run, sent_data,
};
use super::model::SessionView;
use super::outbound::wire_bytes;
use super::recv::{
    ReadOp, all_read, all_taken_in, buffer_left, lemma_reads_give_back, reads_in_turn,
};
use super::start::{frames_of, lemma_message_round_trip, received_form};
use crate::qmux::error::ErrorView;
use crate::qmux::proto::frame::{FrameView, qmux_encoding};
use crate::qmux::proto::varint::{VARINT_MAX, encoding};
use crate::qmux::proto::version::Version;
use crate::qmux::proto::wire::prefixed_encoding;
use crate::qmux::transport::{
    Extent, lemma_extent_bounds, lemma_frame_delimited, lemma_record_delimited, message_extent,
    payload_fits,
};

verus! {

/// A message as it stands on a byte stream: draft-01 puts its size in front.
pub open spec fn framed(message: Seq<u8>, version: Version) -> Seq<u8> {
    if version is QMux01 {
        prefixed_encoding(message)
    } else {
        message
    }
}

/// Frames on a byte stream, one message each.
pub open spec fn stream_bytes(frames: Seq<FrameView>, version: Version) -> Seq<u8>
    decreases frames.len(),
{
    if frames.len() == 0 {
        Seq::empty()
    } else {
        framed(wire_bytes(frames[0], version), version) + stream_bytes(
            frames.drop_first(),
            version,
        )
    }
}

/// The messages that a byte stream starts with, up to the first that is not
/// complete or cannot be received.
pub open spec fn messages_in(s: Seq<u8>, version: Version, limit: u64) -> Seq<Seq<u8>>
    decreases s.len(),
{
    match message_extent(s, version, limit) {
        Extent::Done { start, end } if 0 < end <= s.len() => seq![
            s.subrange(start as int, end as int),
        ] + messages_in(s.skip(end as int), version, limit),
        _ => Seq::empty(),
    }
}

/// The frames in a run of messages.
pub open spec fn frames_in_messages(messages: Seq<Seq<u8>>, version: Version) -> Result<
    Seq<FrameView>,
    ErrorView,
>
    decreases messages.len(),
{
    if messages.len() == 0 {
        Ok(Seq::empty())
    } else {
        match frames_of(messages[0], version) {
            Err(e) => Err(e),
            Ok(first) => match frames_in_messages(messages.drop_first(), version) {
                Err(e) => Err(e),
                Ok(rest) => Ok(first + rest),
            },
        }
    }
}

/// What one frame is received as.
pub open spec fn form(f: FrameView, version: Version) -> Seq<FrameView> {
    match received_form(f, version) {
        Some(g) => seq![g],
        None => Seq::empty(),
    }
}

/// What frames are received as, in order.
pub open spec fn forms(frames: Seq<FrameView>, version: Version) -> Seq<FrameView>
    decreases frames.len(),
{
    if frames.len() == 0 {
        Seq::empty()
    } else {
        form(frames[0], version) + forms(frames.drop_first(), version)
    }
}

/// Whether a frame can be sent, and its message is no larger than the receiver
/// takes.
pub open spec fn sendable(f: FrameView, version: Version, limit: u64) -> bool {
    &&& f.supported(version)
    &&& f.encodable()
    &&& if version is QMux01 {
        wire_bytes(f, version).len() <= limit && wire_bytes(f, version).len() <= VARINT_MAX
    } else {
        payload_fits(f)
    }
}

/// Whether all of the frames can be sent.
pub open spec fn all_sendable(frames: Seq<FrameView>, version: Version, limit: u64) -> bool {
    forall|i: int| 0 <= i < frames.len() ==> sendable(#[trigger] frames[i], version, limit)
}

/// The first message is found whole, and what follows it is left.
proof fn lemma_first_message(f: FrameView, version: Version, limit: u64, rest: Seq<u8>)
    requires
        version.qmux(),
        sendable(f, version, limit),
    ensures
        ({
            let m = wire_bytes(f, version);
            let s = framed(m, version) + rest;
            &&& message_extent(s, version, limit) matches Extent::Done { start, end }
            &&& 0 < end <= s.len()
            &&& s.subrange(start as int, end as int) == m
            &&& s.skip(end as int) == rest
        }),
{
    let m = wire_bytes(f, version);
    let s = framed(m, version) + rest;
    lemma_extent_bounds(s, version, limit);
    if version is QMux01 {
        lemma_record_delimited(m, rest, limit);
        let start = encoding(m.len() as u64).len() as int;
        assert(s.subrange(start, prefixed_encoding(m).len() as int) =~= prefixed_encoding(m).skip(
            start,
        ));
        assert(s.skip(prefixed_encoding(m).len() as int) =~= rest);
    } else {
        lemma_frame_delimited(f, rest);
        assert(m == qmux_encoding(f));
        assert(s.subrange(0, m.len() as int) =~= m);
        assert(s.skip(m.len() as int) =~= rest);
    }
}

/// Law: a byte stream gives back the messages that were put on it, one for each
/// frame and in the same order.
pub proof fn lemma_stream_gives_messages(frames: Seq<FrameView>, version: Version, limit: u64)
    requires
        version.qmux(),
        all_sendable(frames, version, limit),
    ensures
        messages_in(stream_bytes(frames, version), version, limit) == frames.map_values(
            |f: FrameView| wire_bytes(f, version),
        ),
    decreases frames.len(),
{
    let all = frames.map_values(|f: FrameView| wire_bytes(f, version));
    if frames.len() == 0 {
        lemma_extent_bounds(Seq::empty(), version, limit);
        assert(all =~= Seq::empty());
    } else {
        let rest = frames.drop_first();
        let m = wire_bytes(frames[0], version);
        assert(sendable(frames[0], version, limit));
        lemma_first_message(frames[0], version, limit, stream_bytes(rest, version));
        assert forall|i: int| 0 <= i < rest.len() implies sendable(
            #[trigger] rest[i],
            version,
            limit,
        ) by {
            assert(rest[i] == frames[i + 1]);
        }
        lemma_stream_gives_messages(rest, version, limit);
        let others = rest.map_values(|f: FrameView| wire_bytes(f, version));
        assert(all =~= seq![m] + others);
    }
}

/// Law: the messages of frames hold the same frames, in the same order.
pub proof fn lemma_messages_give_frames(frames: Seq<FrameView>, version: Version)
    requires
        forall|i: int|
            0 <= i < frames.len() ==> (#[trigger] frames[i]).supported(version)
                && frames[i].encodable_in(version),
    ensures
        frames_in_messages(
            frames.map_values(|f: FrameView| wire_bytes(f, version)),
            version,
        ) == Ok::<_, ErrorView>(forms(frames, version)),
    decreases frames.len(),
{
    let all = frames.map_values(|f: FrameView| wire_bytes(f, version));
    if frames.len() > 0 {
        let rest = frames.drop_first();
        lemma_message_round_trip(frames[0], version);
        assert forall|i: int| 0 <= i < rest.len() implies (#[trigger] rest[i]).supported(version)
            && rest[i].encodable_in(version) by {
            assert(rest[i] == frames[i + 1]);
        }
        lemma_messages_give_frames(rest, version);
        assert(all.drop_first() =~= rest.map_values(|f: FrameView| wire_bytes(f, version)));
        assert(all[0] == wire_bytes(frames[0], version));
    }
}

/// What a frame carries for a stream does not depend on the link.
proof fn lemma_form_carries(f: FrameView, version: Version, id: u64)
    ensures
        received_form(f, version) matches Some(g) ==> data_in(g, id) == data_in(f, id) && is_data(
            g,
            id,
        ) == is_data(f, id) && is_end(g, id) == is_end(f, id) && is_reset(g, id) == is_reset(f, id),
        received_form(f, version) is None ==> data_in(f, id).len() == 0 && !is_data(f, id)
            && !is_end(f, id) && !is_reset(f, id),
{
}

/// What frames carry for a stream does not depend on the link.
proof fn lemma_forms_carry(frames: Seq<FrameView>, version: Version, id: u64, ended: bool)
    ensures
        sent_data(forms(frames, version), id) == sent_data(frames, id),
        orderly(frames, id, ended) ==> orderly(forms(frames, version), id, ended),
    decreases frames.len(),
{
    if frames.len() > 0 {
        let f = frames[0];
        let rest = frames.drop_first();
        lemma_form_carries(f, version, id);
        lemma_forms_carry(rest, version, id, ended || is_end(f, id));
        let tail = forms(rest, version);
        match received_form(f, version) {
            Some(g) => {
                let all = seq![g] + tail;
                assert(all.drop_first() =~= tail);
                assert(all[0] == g);
            },
            None => {
                assert(Seq::<FrameView>::empty() + tail =~= tail);
                assert(data_in(f, id) + sent_data(rest, id) =~= sent_data(rest, id));
            },
        }
    }
}

/// Law: streams are ordered and reliable. Whatever frames one side puts on the
/// link, the other hands out for each stream the data that was sent on it, all of
/// it and in order, as long as the stream is not given up and ends only once.
pub proof fn lemma_streams_are_reliable(s: SessionView, frames: Seq<FrameView>, id: u64)
    requires
        forall|i: int|
            0 <= i < frames.len() ==> (#[trigger] frames[i]).supported(s.version)
                && frames[i].encodable_in(s.version),
        orderly(frames, id, !expecting(s, id)),
    ensures
        ({
            let messages = frames.map_values(|f: FrameView| wire_bytes(f, s.version));
            &&& frames_in_messages(messages, s.version) matches Ok(received)
            &&& run(s, received) matches Ok((_, events)) ==> received_data(events, id)
                == sent_data(frames, id)
        }),
{
    lemma_messages_give_frames(frames, s.version);
    lemma_forms_carry(frames, s.version, id, !expecting(s, id));
    lemma_in_order_delivery(s, forms(frames, s.version), id);
}

/// Law: the same holds over a byte stream, where the receiver has to find the
/// messages itself.
pub proof fn lemma_byte_streams_are_reliable(
    s: SessionView,
    frames: Seq<FrameView>,
    id: u64,
    limit: u64,
)
    requires
        s.version.qmux(),
        all_sendable(frames, s.version, limit),
        orderly(frames, id, !expecting(s, id)),
    ensures
        ({
            let messages = messages_in(stream_bytes(frames, s.version), s.version, limit);
            &&& frames_in_messages(messages, s.version) matches Ok(received)
            &&& run(s, received) matches Ok((_, events)) ==> received_data(events, id)
                == sent_data(frames, id)
        }),
{
    lemma_stream_gives_messages(frames, s.version, limit);
    assert forall|i: int| 0 <= i < frames.len() implies (#[trigger] frames[i]).supported(s.version)
        && frames[i].encodable_in(s.version) by {
        assert(sendable(frames[i], s.version, limit));
    }
    lemma_streams_are_reliable(s, frames, id);
}

/// Law: what the application reads from a stream, and what it has left to read, is
/// what the other side sent on it, all of it and in order.
pub proof fn lemma_reader_gets_what_was_sent(
    s: SessionView,
    frames: Seq<FrameView>,
    id: u64,
    ops: Seq<ReadOp>,
)
    requires
        forall|i: int|
            0 <= i < frames.len() ==> (#[trigger] frames[i]).supported(s.version)
                && frames[i].encodable_in(s.version),
        orderly(frames, id, !expecting(s, id)),
        reads_in_turn(Seq::empty(), ops),
    ensures
        ({
            let messages = frames.map_values(|f: FrameView| wire_bytes(f, s.version));
            &&& frames_in_messages(messages, s.version) matches Ok(received)
            &&& run(s, received) matches Ok((_, events)) ==> (all_taken_in(ops) == received_data(
                events,
                id,
            ) ==> all_read(Seq::empty(), ops) + buffer_left(Seq::empty(), ops) == sent_data(
                frames,
                id,
            ))
        }),
{
    lemma_streams_are_reliable(s, frames, id);
    lemma_reads_give_back(Seq::empty(), ops);
    assert(Seq::<u8>::empty() + all_taken_in(ops) =~= all_taken_in(ops));
}

} // verus!
