//! What holds of every session, whatever its peer sends.

use vstd::prelude::*;

use super::model::{
    EventView, SessionView, after_refusal, credited, credited_send, datagram_limit, idle_timeout,
    is_torn_down, on_claim, on_close, on_consumed, on_frame, on_open, on_params, on_recv_dropped,
    on_release, open_limit, refused_params, start, stream_opened, torn_down,
};
use crate::qmux::config::ProtocolView;
use crate::qmux::error::ErrorView;
use crate::qmux::negotiate::lemma_both_sides_agree;
use crate::qmux::proto::MAX_FRAME_PAYLOAD;
use crate::qmux::proto::frame::{FrameView, frame_size_of};
use crate::qmux::proto::params::{ParamsView, no_params};
use crate::qmux::proto::varint::{VARINT_MAX, size_of_varint};
use crate::qmux::proto::version::Version;
use crate::qmux::stream::{StreamDir, by_server, dir_of, index_of, lemma_id_parts, receivable};

verus! {

/// Whether no limit is overrun.
pub open spec fn within_limits(s: SessionView) -> bool {
    &&& s.conn_send.wf()
    &&& s.conn_recv.wf()
    &&& s.open_bi.wf()
    &&& s.open_uni.wf()
    &&& s.recv_bi.wf()
    &&& s.recv_uni.wf()
    &&& forall|id: u64| #[trigger] s.recv.contains_key(id) ==> s.recv[id].credit.wf()
    &&& forall|id: u64| #[trigger]
        s.send.contains_key(id) ==> (s.send[id].credit matches Some(c) ==> c.wf())
}

/// Law: a session starts within its limits.
pub proof fn lemma_start_within_limits(
    is_server: bool,
    version: Version,
    protocol: ProtocolView,
    ours: ParamsView,
)
    ensures
        within_limits(start(is_server, version, protocol, ours)),
{
}

/// Law: no frame of the peer takes a session beyond a limit.
pub proof fn lemma_frame_within_limits(s: SessionView, f: FrameView)
    requires
        within_limits(s),
    ensures
        on_frame(s, f) matches Ok((t, _)) ==> within_limits(t),
{
    if let Ok((t, _)) = on_frame(s, f) {
        assert forall|id: u64| #[trigger] t.recv.contains_key(id) implies t.recv[id].credit.wf() by {
            assert(s.recv.contains_key(id) ==> s.recv[id].credit.wf());
        }
        assert forall|id: u64| #[trigger] t.send.contains_key(id) implies (
        t.send[id].credit matches Some(c) ==> c.wf()) by {
            assert(s.send.contains_key(id) ==> (s.send[id].credit matches Some(c) ==> c.wf()));
        }
    }
}

/// Law: nothing that the application does takes a session beyond a limit.
pub proof fn lemma_use_within_limits(s: SessionView, id: u64, n: u64, dir: StreamDir)
    requires
        within_limits(s),
    ensures
        on_open(s, dir) matches Ok(Some((t, _))) ==> within_limits(t),
        on_claim(s, id, n) matches Ok(Some((t, _))) ==> within_limits(t),
        within_limits(on_release(s, id, n)),
        within_limits(on_consumed(s, id, n)),
        within_limits(on_recv_dropped(s, id)),
        within_limits(torn_down(s, ErrorView::Closed)),
{
    assert(s.send.contains_key(id) ==> (s.send[id].credit matches Some(c) ==> c.wf()));
    assert(s.recv.contains_key(id) ==> s.recv[id].credit.wf());
    let t = torn_down(s, ErrorView::Closed);
    assert forall|i: u64| #[trigger] t.send.contains_key(i) implies (
    t.send[i].credit matches Some(c) ==> c.wf()) by {
        assert(s.send.contains_key(i));
    }
}

/// Law: a late frame on a stream that is over changes nothing, so that it neither
/// resurrects the stream nor takes connection credit.
pub proof fn lemma_retired_ignored(s: SessionView, id: u64, data: Seq<u8>, fin: bool)
    requires
        s.retired(id),
        receivable(id, s.is_server),
        data.len() <= MAX_FRAME_PAYLOAD,
    ensures
        on_frame(s, FrameView::Stream { id, data, fin }) == Ok::<_, ErrorView>(
            (s, EventView::Nothing),
        ),
{
}

/// Law: a stream of the peer that is over stays over, whatever the peer sends.
pub proof fn lemma_retired_forever(s: SessionView, f: FrameView, id: u64)
    requires
        s.retired(id),
    ensures
        on_frame(s, f) matches Ok((t, _)) ==> t.retired(id),
{
}

/// Law: a stream of the peer that is over stays over, whatever the application
/// does. What it opens itself are other streams.
pub proof fn lemma_retired_through_use(
    s: SessionView,
    id: u64,
    other: u64,
    n: u64,
    dir: StreamDir,
)
    requires
        s.retired(id),
    ensures
        on_open(s, dir) matches Ok(Some((t, _))) ==> t.retired(id),
        on_claim(s, other, n) matches Ok(Some((t, _))) ==> t.retired(id),
        on_release(s, other, n).retired(id),
        on_consumed(s, other, n).retired(id),
        on_recv_dropped(s, other).retired(id),
{
    if let Ok(Some((t, new))) = on_open(s, dir) {
        lemma_id_parts(open_limit(s, dir).used, dir, s.is_server);
        assert(new != id);
    }
}

/// Law: a stream of the peer is handed out at most once. It was not opened before,
/// and it is afterwards.
pub proof fn lemma_accepted_once(s: SessionView, f: FrameView)
    requires
        s.version.qmux(),
    ensures
        on_frame(s, f) matches Ok((t, EventView::Accept { id, .. })) ==> {
            &&& s.by_peer(id)
            &&& !s.opened(dir_of(id)).contains(index_of(id))
            &&& t.opened(dir_of(id)) == s.opened(dir_of(id)).insert(index_of(id))
        },
{
}

/// Law: a stream that ends is over at once, and so is one that is reset, even
/// where the reset is the first that is heard of it.
pub proof fn lemma_terminal_frames_retire(s: SessionView, f: FrameView, id: u64)
    requires
        s.version.qmux(),
        s.by_peer(id),
        recorded(s),
        (f matches FrameView::Stream { id: i, fin: true, .. } && i == id) || (
        f matches FrameView::ResetStream { id: i, .. } && i == id),
    ensures
        on_frame(s, f) matches Ok((t, _)) ==> t.retired(id),
{
    assert(recorded_at(s, id));
}

/// Law: opening a stream does not close the ones with lower indices that it
/// implicitly opens: whether those are taken for over does not change.
pub proof fn lemma_lower_streams_stay_open(s: SessionView, f: FrameView, id: u64, other: u64)
    requires
        (f matches FrameView::Stream { id: i, .. } && i == id) || (
        f matches FrameView::ResetStream { id: i, .. } && i == id),
        dir_of(other) != dir_of(id) || index_of(other) != index_of(id),
    ensures
        on_frame(s, f) matches Ok((t, _)) ==> t.opened(dir_of(other)).contains(index_of(other))
            == s.opened(dir_of(other)).contains(index_of(other)),
{
}

/// Whether a stream of the peer that is received on was recorded as opened.
pub open spec fn recorded_at(s: SessionView, id: u64) -> bool {
    s.receiving(id) && s.by_peer(id) ==> s.opened(dir_of(id)).contains(index_of(id))
}

/// Whether every stream of the peer that is received on was recorded as opened.
pub open spec fn recorded(s: SessionView) -> bool {
    s.version.qmux() ==> forall|id: u64| #[trigger] recorded_at(s, id)
}

proof fn lemma_recorded_step(s: SessionView, t: SessionView)
    requires
        recorded(s),
        t.version == s.version,
        t.version.qmux() ==> forall|id: u64| recorded_at(s, id) ==> #[trigger] recorded_at(t, id),
    ensures
        recorded(t),
{
    if t.version.qmux() {
        assert forall|id: u64| #[trigger] recorded_at(t, id) by {
            assert(recorded_at(s, id));
        }
    }
}

/// Law: every stream of the peer that is received on was recorded as opened. It
/// holds at the start, and no frame and no use of the session ends it.
pub proof fn lemma_recorded(
    s: SessionView,
    f: FrameView,
    id: u64,
    n: u64,
    dir: StreamDir,
    protocol: ProtocolView,
)
    requires
        recorded(s),
    ensures
        recorded(start(s.is_server, s.version, protocol, s.ours)),
        on_frame(s, f) matches Ok((t, _)) ==> recorded(t),
        on_open(s, dir) matches Ok(Some((t, _))) ==> recorded(t),
        on_claim(s, id, n) matches Ok(Some((t, _))) ==> recorded(t),
        recorded(on_release(s, id, n)),
        recorded(on_consumed(s, id, n)),
        recorded(on_recv_dropped(s, id)),
{
    if let Ok((t, _)) = on_frame(s, f) {
        lemma_recorded_step(s, t);
    }
    if let Ok(Some((t, new))) = on_open(s, dir) {
        lemma_id_parts(open_limit(s, dir).used, dir, s.is_server);
        lemma_recorded_step(s, t);
    }
    if let Ok(Some((t, _))) = on_claim(s, id, n) {
        lemma_recorded_step(s, t);
    }
    lemma_recorded_step(s, on_release(s, id, n));
    lemma_recorded_step(s, on_consumed(s, id, n));
    lemma_recorded_step(s, on_recv_dropped(s, id));
}

/// Law: the peer's transport parameters are taken once. Whatever comes later is
/// refused and changes nothing, even where the first were refused themselves.
pub proof fn lemma_params_once(s: SessionView, p: ParamsView, q: ParamsView)
    ensures
        on_params(s, p) matches Ok((t, _)) ==> {
            &&& on_params(t, q) == Err::<(SessionView, EventView), _>(ErrorView::FlowControlError)
            &&& refused_params(t) == t
        },
        on_params(s, p) is Err ==> {
            let t = refused_params(s);
            &&& on_params(t, q) == Err::<(SessionView, EventView), _>(ErrorView::FlowControlError)
            &&& refused_params(t) == t
        },
{
}

/// Law: refused parameters raise no limit, settle no protocol and do not establish
/// the session.
pub proof fn lemma_refused_params_give_nothing(s: SessionView, p: ParamsView)
    requires
        on_params(s, p) is Err,
    ensures
        ({
            let t = after_refusal(s, FrameView::TransportParameters(p));
            &&& t == (SessionView { params_received: true, ..s })
            &&& t.conn_send == s.conn_send
            &&& t.open_bi == s.open_bi
            &&& t.open_uni == s.open_uni
            &&& t.send == s.send
            &&& t.peer == s.peer
            &&& t.negotiated == s.negotiated
            &&& t.established == s.established
        }),
{
}

/// Law: a refused frame takes the session beyond no limit, and no stream away.
pub proof fn lemma_refusal_within_limits(s: SessionView, f: FrameView)
    requires
        within_limits(s),
        on_frame(s, f) is Err,
    ensures
        within_limits(after_refusal(s, f)),
        after_refusal(s, f).send == s.send,
        after_refusal(s, f).recv == s.recv,
{
}

/// Law: a ping is answered once, and an answer is not answered, so that two peers
/// come to an end.
pub proof fn lemma_ping_answered_once(s: SessionView, t: SessionView, sequence: u64)
    ensures
        ({
            let answer = FrameView::Ping { sequence, response: true };
            &&& on_frame(s, FrameView::Ping { sequence, response: false }) == Ok::<_, ErrorView>(
                (s, EventView::Respond { frame: answer }),
            )
            &&& on_frame(t, answer) == Ok::<_, ErrorView>((t, EventView::Nothing))
        }),
{
}

/// Law: only a ping that asks for one is answered with a frame.
pub proof fn lemma_only_pings_answered(s: SessionView, f: FrameView)
    ensures
        on_frame(s, f) matches Ok((_, EventView::Respond { frame })) ==> (
        f matches FrameView::Ping { sequence, response } && !response && frame == (FrameView::Ping {
            sequence,
            response: true,
        })),
{
}

/// Law: a stream gets the peer's initial window exactly once, whether it is opened
/// before the peer's parameters arrive or after.
pub proof fn lemma_window_given_once(s: SessionView, dir: StreamDir, p: ParamsView)
    requires
        s.version.qmux(),
        s.peer == no_params(),
        on_open(s, dir) matches Ok(Some(_)),
        on_params(s, p) is Ok,
        open_limit(s, dir).wf(),
    ensures
        ({
            let (opened, id) = stream_opened(s, dir);
            let (informed, _) = on_params(s, p)->Ok_0;
            let (after, _) = on_params(opened, p)->Ok_0;
            let (before, same) = stream_opened(informed, dir);
            &&& on_params(opened, p) is Ok
            &&& on_open(informed, dir) == Ok::<_, ErrorView>(Some((before, same)))
            &&& id == same
            &&& after.send[id] == before.send[id]
        }),
{
    let (opened, id) = stream_opened(s, dir);
    lemma_id_parts(open_limit(s, dir).used, dir, s.is_server);
    assert(opened.send.contains_key(id));
    let s1 = SessionView { peer: p, ..opened };
    assert(credited(s1)[id] == credited_send(opened.send[id], s1.send_window_for(id)));
}

/// Law: both sides of a connection come to the same application protocol, where
/// each is told the list of the other.
pub proof fn lemma_same_protocol(
    server: SessionView,
    client: SessionView,
    server_params: ParamsView,
    client_params: ParamsView,
)
    requires
        server.is_server,
        !client.is_server,
        server.protocol == ProtocolView::Negotiate(server_params.protocols),
        client.protocol == ProtocolView::Negotiate(client_params.protocols),
    ensures
        on_params(server, client_params) matches Ok((s, _)) ==> (on_params(
            client,
            server_params,
        ) matches Ok((c, _)) ==> s.negotiated == c.negotiated && s.negotiated is Some),
{
    lemma_both_sides_agree(server_params.protocols, client_params.protocols);
}

/// Law: the idle timeout is the same seen from both sides. It is none only where
/// neither side has one, and otherwise no longer than either side's own.
pub proof fn lemma_idle_timeout(a: u64, b: u64)
    ensures
        idle_timeout(a, b) == idle_timeout(b, a),
        idle_timeout(a, b) == 0 <==> a == 0 && b == 0,
        a != 0 ==> idle_timeout(a, b) <= a,
        b != 0 ==> idle_timeout(a, b) <= b,
{
}

/// Law: a datagram within the limit makes a frame that the peer accepts and that
/// fits in one of its records.
pub proof fn lemma_datagram_fits(p: ParamsView, len: nat)
    requires
        len <= datagram_limit(p),
        datagram_limit(p) > 0,
        p.max_datagram_frame_size <= VARINT_MAX,
    ensures
        frame_size_of(len, true) <= p.max_datagram_frame_size,
        frame_size_of(len, true) <= p.max_record_size,
        frame_size_of(len, true) == 1 + size_of_varint(len as u64) + len,
{
}

/// Law: sending takes no more than is asked for, than the stream has left and than
/// the connection has left, and as much of both. It waits only where one of them
/// has nothing left.
pub proof fn lemma_claim(s: SessionView, id: u64, desired: u64)
    requires
        within_limits(s),
        s.send.contains_key(id),
        s.send[id].credit is Some,
        desired > 0,
    ensures
        on_claim(s, id, desired) matches Ok(Some((t, n))) ==> {
            &&& 0 < n <= desired
            &&& t.conn_send.used == s.conn_send.used + n <= s.conn_send.max
            &&& t.send[id].credit->0.used == s.send[id].credit->0.used + n
                <= s.send[id].credit->0.max
        },
        on_claim(s, id, desired) matches Ok(None) ==> s.conn_send.available() == 0
            || s.send[id].credit->0.available() == 0,
{
}

/// Law: giving back what was claimed undoes the claim.
pub proof fn lemma_release_undoes_claim(s: SessionView, id: u64, desired: u64)
    requires
        within_limits(s),
    ensures
        on_claim(s, id, desired) matches Ok(Some((t, n))) ==> on_release(t, id, n) == s,
{
    if let Ok(Some((t, n))) = on_claim(s, id, desired) {
        if s.send[id].credit is Some {
            assert(s.send[id].credit->0.wf());
        }
        assert(on_release(t, id, n).send =~= s.send);
        assert(on_release(t, id, n) =~= s);
    }
}

/// Law: a session that ended reports the reason it ended for, whatever it is closed
/// with later. Until then, the last close counts.
pub proof fn lemma_reason_of_the_end_stays(
    s: SessionView,
    err: ErrorView,
    code: u64,
    reason: Seq<char>,
    writing: bool,
)
    ensures
        on_close(torn_down(s, err), code, reason, false) == torn_down(s, err),
        !is_torn_down(s) ==> on_close(s, code, reason, writing).closed == Some(
            ErrorView::ConnectionClosed { code, reason },
        ),
{
}

/// What a run of frames does to a session, with what has to be done after each.
pub open spec fn run(s: SessionView, frames: Seq<FrameView>) -> Result<
    (SessionView, Seq<EventView>),
    ErrorView,
>
    decreases frames.len(),
{
    if frames.len() == 0 {
        Ok((s, Seq::empty()))
    } else {
        match on_frame(s, frames[0]) {
            Err(e) => Err(e),
            Ok((t, event)) => match run(t, frames.drop_first()) {
                Err(e) => Err(e),
                Ok((u, events)) => Ok((u, seq![event] + events)),
            },
        }
    }
}

/// The data that a frame carries for stream `id`.
pub open spec fn data_in(f: FrameView, id: u64) -> Seq<u8> {
    match f {
        FrameView::Stream { id: i, data, .. } if i == id => data,
        _ => Seq::empty(),
    }
}

/// The data that frames carry for stream `id`, in order.
pub open spec fn sent_data(frames: Seq<FrameView>, id: u64) -> Seq<u8>
    decreases frames.len(),
{
    if frames.len() == 0 {
        Seq::empty()
    } else {
        data_in(frames[0], id) + sent_data(frames.drop_first(), id)
    }
}

/// The data that is handed to the receiving side of stream `id`.
pub open spec fn data_out(e: EventView, id: u64) -> Seq<u8> {
    match e {
        EventView::Deliver { id: i, data, .. } if i == id => data,
        EventView::Accept { id: i, data, .. } if i == id => data,
        _ => Seq::empty(),
    }
}

/// The data that is handed to the receiving side of stream `id`, in order.
pub open spec fn received_data(events: Seq<EventView>, id: u64) -> Seq<u8>
    decreases events.len(),
{
    if events.len() == 0 {
        Seq::empty()
    } else {
        data_out(events[0], id) + received_data(events.drop_first(), id)
    }
}

/// Whether a frame carries data of stream `id`.
pub open spec fn is_data(f: FrameView, id: u64) -> bool {
    f matches FrameView::Stream { id: i, .. } && i == id
}

/// Whether a frame ends stream `id`.
pub open spec fn is_end(f: FrameView, id: u64) -> bool {
    f matches FrameView::Stream { id: i, fin: true, .. } && i == id
}

/// Whether a frame gives stream `id` up.
pub open spec fn is_reset(f: FrameView, id: u64) -> bool {
    f matches FrameView::ResetStream { id: i, .. } && i == id
}

/// Whether data of stream `id` has somewhere to go: it is received on, or is a
/// stream of the peer that can still be opened. The legacy format keeps no track
/// of those that were.
pub open spec fn expecting(s: SessionView, id: u64) -> bool {
    s.receiving(id) || s.by_peer(id) && (s.version.qmux() ==> !s.opened(dir_of(id)).contains(
        index_of(id),
    ))
}

/// Two streams of one opener differ in direction or index.
proof fn lemma_same_parts(a: u64, b: u64)
    requires
        by_server(a) == by_server(b),
        dir_of(a) == dir_of(b),
        index_of(a) == index_of(b),
    ensures
        a == b,
{
}

proof fn lemma_step_delivers(s: SessionView, f: FrameView, id: u64)
    requires
        expecting(s, id) || !is_data(f, id),
        !is_reset(f, id),
    ensures
        on_frame(s, f) matches Ok((t, e)) ==> {
            &&& data_out(e, id) == data_in(f, id)
            &&& t.version == s.version
            &&& t.is_server == s.is_server
            &&& expecting(s, id) && !is_end(f, id) ==> expecting(t, id)
        },
{
    if let Ok((t, e)) = on_frame(s, f) {
        match f {
            FrameView::Stream { id: i, .. } => {
                if i != id && s.by_peer(i) && s.by_peer(id) && dir_of(i) == dir_of(id) && index_of(
                    i,
                ) == index_of(id) {
                    lemma_same_parts(i, id);
                }
            },
            FrameView::ResetStream { id: i, .. } => {
                if s.by_peer(i) && s.by_peer(id) && dir_of(i) == dir_of(id) && index_of(i)
                    == index_of(id) {
                    lemma_same_parts(i, id);
                }
            },
            _ => {},
        }
    }
}

/// Whether the frames for stream `id` are orderly: it is not given up, and no data
/// follows its end. `ended` tells whether the end came before.
pub open spec fn orderly(frames: Seq<FrameView>, id: u64, ended: bool) -> bool
    decreases frames.len(),
{
    frames.len() > 0 ==> {
        &&& !is_reset(frames[0], id)
        &&& ended ==> !is_data(frames[0], id)
        &&& orderly(frames.drop_first(), id, ended || is_end(frames[0], id))
    }
}

/// Where less has ended, what was orderly still is.
proof fn lemma_orderly_weaker(frames: Seq<FrameView>, id: u64, ended: bool)
    requires
        orderly(frames, id, ended),
    ensures
        orderly(frames, id, false),
    decreases frames.len(),
{
    if frames.len() > 0 {
        if !is_end(frames[0], id) {
            lemma_orderly_weaker(frames.drop_first(), id, ended);
        }
    }
}

/// Law: the data of a stream arrives whole and in order. What a session hands to
/// the receiving side of a stream is what the frames carry for it, as long as the
/// stream is not given up and ends only once.
pub proof fn lemma_in_order_delivery(s: SessionView, frames: Seq<FrameView>, id: u64)
    requires
        orderly(frames, id, !expecting(s, id)),
    ensures
        run(s, frames) matches Ok((_, events)) ==> received_data(events, id) == sent_data(
            frames,
            id,
        ),
    decreases frames.len(),
{
    if frames.len() > 0 {
        let f = frames[0];
        let rest = frames.drop_first();
        lemma_step_delivers(s, f, id);
        if let Ok((t, e)) = on_frame(s, f) {
            if expecting(t, id) {
                lemma_orderly_weaker(rest, id, !expecting(s, id) || is_end(f, id));
            }
            lemma_in_order_delivery(t, rest, id);
            if let Ok((u, events)) = run(t, rest) {
                assert((seq![e] + events).drop_first() =~= events);
            }
        }
    }
}

} // verus!
