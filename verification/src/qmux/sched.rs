//! Scheduling of stream data: which frame is sent next.

use std::collections::VecDeque;

use vstd::prelude::*;

use super::error::Error;
use super::proto::frame::{Frame, FrameView};
use super::stream::StreamId;

verus! {

/// The frames of one stream that wait to be sent.
pub struct Lane {
    id: u64,
    priority: u8,
    frames: VecDeque<Frame>,
}

/// A [`Lane`] over plain values.
#[verifier::ext_equal]
pub struct LaneView {
    pub id: u64,
    pub priority: u8,
    pub frames: Seq<FrameView>,
}

impl View for Lane {
    type V = LaneView;

    closed spec fn view(&self) -> LaneView {
        LaneView {
            id: self.id,
            priority: self.priority,
            frames: self.frames@.map_values(|f: Frame| f@),
        }
    }
}

/// Stream frames waiting to be sent, ordered by the priority of their streams.
///
/// A stream of higher priority is served first. Streams of the same priority take
/// turns. The frames of one stream keep their order.
pub struct PriorityQueue {
    lanes: Vec<Lane>,
    capacity: usize,
    closed: bool,
}

/// A [`PriorityQueue`] over plain values: the streams in the order of their
/// turns.
#[verifier::ext_equal]
pub struct QueueView {
    pub lanes: Seq<LaneView>,
    /// How many frames may wait before a producer has to.
    pub capacity: nat,
    /// Whether nothing is sent any more.
    pub closed: bool,
}

impl View for PriorityQueue {
    type V = QueueView;

    closed spec fn view(&self) -> QueueView {
        QueueView {
            lanes: lane_views(self.lanes@),
            capacity: self.capacity as nat,
            closed: self.closed,
        }
    }
}

/// Whether the stream of lane `i` is `id`.
pub open spec fn is_lane(lanes: Seq<LaneView>, i: int, id: u64) -> bool {
    0 <= i < lanes.len() && lanes[i].id == id
}

/// Whether frames of stream `id` wait.
pub open spec fn has_lane(lanes: Seq<LaneView>, id: u64) -> bool {
    exists|i: int| is_lane(lanes, i, id)
}

/// The lane of stream `id`.
pub open spec fn lane_of(lanes: Seq<LaneView>, id: u64) -> int {
    choose|i: int| is_lane(lanes, i, id)
}

/// The frames of stream `id` that wait, in order.
pub open spec fn queued(lanes: Seq<LaneView>, id: u64) -> Seq<FrameView> {
    if has_lane(lanes, id) {
        lanes[lane_of(lanes, id)].frames
    } else {
        Seq::empty()
    }
}

/// How many frames wait.
pub open spec fn total(lanes: Seq<LaneView>) -> nat
    decreases lanes.len(),
{
    if lanes.len() == 0 {
        0
    } else {
        total(lanes.drop_last()) + lanes.last().frames.len()
    }
}

/// Each stream has one lane, and only while frames of it wait.
pub open spec fn lanes_wf(lanes: Seq<LaneView>) -> bool {
    &&& forall|i: int, j: int|
        #![trigger lanes[i], lanes[j]]
        0 <= i < j < lanes.len() ==> lanes[i].id != lanes[j].id
    &&& forall|i: int| 0 <= i < lanes.len() ==> (#[trigger] lanes[i]).frames.len() > 0
}

/// Whether lane `i` is next: no other has a higher priority, and none before it
/// has the same.
pub open spec fn is_next(lanes: Seq<LaneView>, i: int) -> bool {
    &&& 0 <= i < lanes.len()
    &&& forall|j: int|
        0 <= j < lanes.len() ==> (#[trigger] lanes[j]).priority <= lanes[i].priority
    &&& forall|j: int| 0 <= j < i ==> (#[trigger] lanes[j]).priority < lanes[i].priority
}

/// The lane that is next.
pub open spec fn next_lane(lanes: Seq<LaneView>) -> int {
    choose|i: int| is_next(lanes, i)
}

/// After a frame was queued behind those of its stream. The stream has its place
/// among the turns from its first frame on.
pub open spec fn pushed(lanes: Seq<LaneView>, priority: u8, id: u64, f: FrameView) -> Seq<
    LaneView,
> {
    if has_lane(lanes, id) {
        let i = lane_of(lanes, id);
        lanes.update(i, LaneView { id, priority, frames: lanes[i].frames.push(f) })
    } else {
        lanes.push(LaneView { id, priority, frames: seq![f] })
    }
}

/// After a stream got another priority. Its frames stay where they are.
pub open spec fn reprioritized(lanes: Seq<LaneView>, id: u64, priority: u8) -> Seq<LaneView> {
    if has_lane(lanes, id) {
        let i = lane_of(lanes, id);
        lanes.update(i, LaneView { priority, ..lanes[i] })
    } else {
        lanes
    }
}

/// After the next frame was taken: its stream has had its turn.
pub open spec fn popped(lanes: Seq<LaneView>) -> Seq<LaneView> {
    let i = next_lane(lanes);
    let rest = lanes.remove(i);
    if lanes[i].frames.len() > 1 {
        rest.push(LaneView { frames: lanes[i].frames.drop_first(), ..lanes[i] })
    } else {
        rest
    }
}

/// What was found at the head of the queue.
pub enum Popped {
    /// The next frame.
    Frame(Frame),
    /// Nothing waits.
    Empty,
    /// Nothing is sent any more.
    Closed,
}

proof fn lemma_lane_unique(lanes: Seq<LaneView>, i: int, id: u64)
    requires
        lanes_wf(lanes),
        is_lane(lanes, i, id),
    ensures
        has_lane(lanes, id),
        lane_of(lanes, id) == i,
{
    let k = lane_of(lanes, id);
    assert(is_lane(lanes, k, id));
    if k < i {
        assert(lanes[k].id != lanes[i].id);
    } else if i < k {
        assert(lanes[i].id != lanes[k].id);
    }
}

proof fn lemma_next_unique(lanes: Seq<LaneView>, i: int)
    requires
        is_next(lanes, i),
    ensures
        next_lane(lanes) == i,
{
    let k = next_lane(lanes);
    assert(is_next(lanes, k));
    if k < i {
        assert(lanes[k].priority < lanes[i].priority);
    } else if i < k {
        assert(lanes[i].priority < lanes[k].priority);
    }
}

/// Lanes over plain values.
spec fn lane_views(lanes: Seq<Lane>) -> Seq<LaneView> {
    lanes.map_values(|l: Lane| l@)
}

/// The lane of a stream.
fn find(lanes: &Vec<Lane>, id: u64) -> (r: Option<usize>)
    requires
        lanes_wf(lane_views(lanes@)),
    ensures
        match r {
            Some(i) => {
                &&& has_lane(lane_views(lanes@), id)
                &&& lane_of(lane_views(lanes@), id) == i
                &&& i < lanes@.len()
            },
            None => !has_lane(lane_views(lanes@), id),
        },
{
    let ghost views = lane_views(lanes@);
    let mut i: usize = 0;
    while i < lanes.len()
        invariant
            views == lane_views(lanes@),
            lanes_wf(views),
            i <= lanes@.len(),
            forall|j: int| 0 <= j < i ==> (#[trigger] lanes@[j]).id != id,
        decreases lanes@.len() - i,
    {
        if lanes[i].id == id {
            proof {
                assert(is_lane(views, i as int, id));
                lemma_lane_unique(views, i as int, id);
            }
            return Some(i);
        }
        i += 1;
    }
    proof {
        assert forall|j: int| !is_lane(views, j, id) by {
            if 0 <= j < views.len() {
                assert(lanes@[j].id != id);
            }
        }
    }
    None
}

/// Queue a frame for a stream, behind those that wait already.
fn append(lanes: &mut Vec<Lane>, priority: u8, id: u64, frame: Frame)
    requires
        lanes_wf(lane_views(old(lanes)@)),
    ensures
        lanes_wf(lane_views(final(lanes)@)),
        lane_views(final(lanes)@) == pushed(lane_views(old(lanes)@), priority, id, frame@),
{
    let ghost before = lane_views(lanes@);
    match find(lanes, id) {
        Some(i) => {
            let mut lane = lanes.remove(i);
            lane.priority = priority;
            lane.frames.push_back(frame);
            lanes.insert(i, lane);
        },
        None => {
            let mut frames: VecDeque<Frame> = VecDeque::new();
            frames.push_back(frame);
            lanes.push(Lane { id, priority, frames });
        },
    }
    proof {
        let expected = pushed(before, priority, id, frame@);
        let views = lane_views(lanes@);
        assert forall|j: int| 0 <= j < expected.len() implies views[j] == expected[j] by {
            assert(views[j].frames =~= expected[j].frames);
        }
        assert(views =~= expected);
        lemma_pushed_wf(before, priority, id, frame@);
    }
}

/// Give a stream another priority.
fn prioritize(lanes: &mut Vec<Lane>, id: u64, priority: u8)
    requires
        lanes_wf(lane_views(old(lanes)@)),
    ensures
        lanes_wf(lane_views(final(lanes)@)),
        lane_views(final(lanes)@) == reprioritized(lane_views(old(lanes)@), id, priority),
{
    let ghost before = lane_views(lanes@);
    if let Some(i) = find(lanes, id) {
        let mut lane = lanes.remove(i);
        lane.priority = priority;
        lanes.insert(i, lane);
    }
    proof {
        assert(lane_views(lanes@) =~= reprioritized(before, id, priority));
        lemma_reprioritized_wf(before, id, priority);
    }
}

/// Take the next frame of lanes that hold some.
fn take_next(lanes: &mut Vec<Lane>) -> (r: Option<Frame>)
    requires
        lanes_wf(lane_views(old(lanes)@)),
        old(lanes)@.len() > 0,
    ensures
        lanes_wf(lane_views(final(lanes)@)),
        ({
            let views = lane_views(old(lanes)@);
            &&& r matches Some(f)
            &&& f@ == views[next_lane(views)].frames[0]
            &&& lane_views(final(lanes)@) == popped(views)
        }),
{
    let ghost before = lane_views(lanes@);
    let ghost held = lanes@;
    let mut best: usize = 0;
    let mut i: usize = 1;
    while i < lanes.len()
        invariant
            lanes@ == held,
            before == lane_views(held),
            best < i <= lanes@.len(),
            forall|j: int|
                0 <= j < i ==> (#[trigger] before[j]).priority <= before[best as int].priority,
            forall|j: int|
                0 <= j < best ==> (#[trigger] before[j]).priority < before[best as int].priority,
        decreases lanes@.len() - i,
    {
        assert(before[i as int].priority == lanes@[i as int].priority);
        assert(before[best as int].priority == lanes@[best as int].priority);
        if lanes[i].priority > lanes[best].priority {
            best = i;
        }
        i += 1;
    }
    proof {
        assert(is_next(before, best as int));
        lemma_next_unique(before, best as int);
        lemma_popped_wf(before);
    }
    let mut lane = lanes.remove(best);
    let ghost frames = lane.frames@;
    assert(lane@ == before[best as int]);
    assert(lane@.frames.len() == frames.len());
    let frame = lane.frames.pop_front();
    if lane.frames.len() > 0 {
        lanes.push(lane);
    }
    proof {
        assert(frame->0@ == before[best as int].frames[0]);
        assert(lane@.frames =~= before[best as int].frames.drop_first());
        assert(lane_views(lanes@) =~= popped(before));
    }
    frame
}

impl PriorityQueue {
    /// Each stream has one lane, and only while frames of it wait.
    #[verifier::type_invariant]
    spec fn one_lane_each(&self) -> bool {
        lanes_wf(lane_views(self.lanes@))
    }

    /// A queue that holds up to `capacity` frames before a producer has to wait.
    pub fn new(capacity: usize) -> (r: PriorityQueue)
        ensures
            r@ == (QueueView { lanes: Seq::empty(), capacity: capacity as nat, closed: false }),
    {
        let r = PriorityQueue { lanes: Vec::new(), capacity, closed: false };
        assert(r@.lanes =~= Seq::empty());
        r
    }

    /// Whether nothing is sent any more.
    pub fn is_closed(&self) -> (r: bool)
        ensures
            r == self@.closed,
            lanes_wf(self@.lanes),
    {
        proof {
            use_type_invariant(self);
        }
        self.closed
    }

    /// Whether as many frames wait as may.
    pub fn is_full(&self) -> (r: bool)
        ensures
            r == (total(self@.lanes) >= self@.capacity),
            lanes_wf(self@.lanes),
    {
        proof {
            use_type_invariant(self);
        }
        let ghost lanes = self@.lanes;
        let mut room: usize = self.capacity;
        let mut i: usize = 0;
        assert(total(lanes.take(0)) == 0);
        while i < self.lanes.len()
            invariant
                i <= self.lanes@.len(),
                lanes == self@.lanes,
                lanes_wf(lanes),
                lanes.len() == self.lanes@.len(),
                room + total(lanes.take(i as int)) == self.capacity,
            decreases self.lanes@.len() - i,
        {
            let n: usize = self.lanes[i].frames.len();
            proof {
                assert(lanes.take(i + 1).drop_last() =~= lanes.take(i as int));
                assert(lanes.take(i + 1).last() == lanes[i as int]);
                assert(lanes[i as int].frames.len() == n);
            }
            if n >= room {
                proof {
                    lemma_total_grows(lanes, i + 1);
                }
                return true;
            }
            room = room - n;
            i += 1;
        }
        proof {
            assert(lanes.take(i as int) =~= lanes);
        }
        room == 0
    }

    /// Queue a frame for a stream.
    fn enqueue(&mut self, priority: u8, id: u64, frame: Frame)
        ensures
            lanes_wf(old(self)@.lanes),
            final(self)@ == (QueueView {
                lanes: pushed(old(self)@.lanes, priority, id, frame@),
                ..old(self)@
            }),
    {
        proof {
            use_type_invariant(&*self);
        }
        let mut lanes: Vec<Lane> = Vec::new();
        std::mem::swap(&mut self.lanes, &mut lanes);
        append(&mut lanes, priority, id, frame);
        self.lanes = lanes;
    }

    /// Queue a frame, if there is room. `Ok(false)` means to wait for some.
    pub fn push(&mut self, priority: u8, id: &StreamId, frame: Frame) -> (r: Result<bool, Error>)
        ensures
            lanes_wf(old(self)@.lanes),
            if old(self)@.closed {
                &&& r matches Err(e)
                &&& e is Closed
                &&& final(self)@ == old(self)@
            } else if total(old(self)@.lanes) >= old(self)@.capacity {
                &&& r == Ok::<bool, Error>(false)
                &&& final(self)@ == old(self)@
            } else {
                &&& r == Ok::<bool, Error>(true)
                &&& final(self)@ == (QueueView {
                    lanes: pushed(old(self)@.lanes, priority, id@, frame@),
                    ..old(self)@
                })
            },
    {
        if self.is_closed() {
            return Err(Error::Closed);
        }
        if self.is_full() {
            return Ok(false);
        }
        self.enqueue(priority, id.0.into_inner(), frame);
        Ok(true)
    }

    /// Queue a frame whether or not there is room.
    pub fn push_now(&mut self, priority: u8, id: &StreamId, frame: Frame) -> (r: Result<(), Error>)
        ensures
            lanes_wf(old(self)@.lanes),
            if old(self)@.closed {
                &&& r matches Err(e)
                &&& e is Closed
                &&& final(self)@ == old(self)@
            } else {
                &&& r is Ok
                &&& final(self)@ == (QueueView {
                    lanes: pushed(old(self)@.lanes, priority, id@, frame@),
                    ..old(self)@
                })
            },
    {
        if self.is_closed() {
            return Err(Error::Closed);
        }
        self.enqueue(priority, id.0.into_inner(), frame);
        Ok(())
    }

    /// Give a stream another priority, which holds for its frames that wait too.
    pub fn set_priority(&mut self, id: &StreamId, priority: u8)
        ensures
            lanes_wf(old(self)@.lanes),
            final(self)@ == (QueueView {
                lanes: reprioritized(old(self)@.lanes, id@, priority),
                ..old(self)@
            }),
    {
        proof {
            use_type_invariant(&*self);
        }
        let mut lanes: Vec<Lane> = Vec::new();
        std::mem::swap(&mut self.lanes, &mut lanes);
        prioritize(&mut lanes, id.0.into_inner(), priority);
        self.lanes = lanes;
    }

    /// Take the next frame.
    pub fn pop(&mut self) -> (r: Popped)
        ensures
            lanes_wf(old(self)@.lanes),
            if old(self)@.closed {
                r is Closed && final(self)@ == old(self)@
            } else if old(self)@.lanes.len() == 0 {
                r is Empty && final(self)@ == old(self)@
            } else {
                &&& r matches Popped::Frame(f)
                &&& f@ == old(self)@.lanes[next_lane(old(self)@.lanes)].frames[0]
                &&& final(self)@ == (QueueView { lanes: popped(old(self)@.lanes), ..old(self)@ })
            },
    {
        proof {
            use_type_invariant(&*self);
        }
        if self.closed {
            return Popped::Closed;
        }
        if self.lanes.len() == 0 {
            return Popped::Empty;
        }
        let mut lanes: Vec<Lane> = Vec::new();
        std::mem::swap(&mut self.lanes, &mut lanes);
        let frame = take_next(&mut lanes);
        self.lanes = lanes;
        match frame {
            Some(frame) => Popped::Frame(frame),
            None => Popped::Empty,
        }
    }

    /// Send nothing any more.
    pub fn close(&mut self)
        ensures
            final(self)@ == (QueueView { closed: true, ..old(self)@ }),
    {
        proof {
            use_type_invariant(&*self);
        }
        self.closed = true;
    }
}

proof fn lemma_total_grows(lanes: Seq<LaneView>, i: int)
    requires
        0 <= i <= lanes.len(),
    ensures
        total(lanes.take(i)) <= total(lanes),
    decreases lanes.len() - i,
{
    if i == lanes.len() {
        assert(lanes.take(i) =~= lanes);
    } else {
        lemma_total_grows(lanes, i + 1);
        assert(lanes.take(i + 1).drop_last() =~= lanes.take(i));
    }
}

proof fn lemma_pushed_wf(lanes: Seq<LaneView>, priority: u8, id: u64, f: FrameView)
    requires
        lanes_wf(lanes),
    ensures
        lanes_wf(pushed(lanes, priority, id, f)),
{
    if has_lane(lanes, id) {
        assert(is_lane(lanes, lane_of(lanes, id), id));
    } else {
        assert forall|i: int| 0 <= i < lanes.len() implies (#[trigger] lanes[i]).id != id by {
            assert(!is_lane(lanes, i, id));
        }
    }
}

proof fn lemma_reprioritized_wf(lanes: Seq<LaneView>, id: u64, priority: u8)
    requires
        lanes_wf(lanes),
    ensures
        lanes_wf(reprioritized(lanes, id, priority)),
{
    if has_lane(lanes, id) {
        assert(is_lane(lanes, lane_of(lanes, id), id));
    }
}

proof fn lemma_popped_wf(lanes: Seq<LaneView>)
    requires
        lanes_wf(lanes),
        is_next(lanes, next_lane(lanes)),
    ensures
        lanes_wf(popped(lanes)),
{
    let i = next_lane(lanes);
    let rest = lanes.remove(i);
    assert forall|j: int| 0 <= j < rest.len() implies #[trigger] rest[j] == lanes[if j < i {
        j
    } else {
        j + 1
    }] by {}
}

proof fn lemma_no_lane(lanes: Seq<LaneView>, id: u64)
    requires
        forall|i: int| 0 <= i < lanes.len() ==> (#[trigger] lanes[i]).id != id,
    ensures
        !has_lane(lanes, id),
{
    assert forall|i: int| !is_lane(lanes, i, id) by {
        if 0 <= i < lanes.len() {
            assert(lanes[i].id != id);
        }
    }
}

/// Law: queueing a frame puts it behind those of its stream and leaves those of
/// every other stream alone.
pub proof fn lemma_push_keeps_order(
    lanes: Seq<LaneView>,
    priority: u8,
    id: u64,
    f: FrameView,
    other: u64,
)
    requires
        lanes_wf(lanes),
    ensures
        queued(pushed(lanes, priority, id, f), id) == queued(lanes, id).push(f),
        other != id ==> queued(pushed(lanes, priority, id, f), other) == queued(lanes, other),
{
    let after = pushed(lanes, priority, id, f);
    lemma_pushed_wf(lanes, priority, id, f);
    if has_lane(lanes, id) {
        let i = lane_of(lanes, id);
        assert(is_lane(lanes, i, id));
        assert(is_lane(after, i, id));
        lemma_lane_unique(after, i, id);
    } else {
        assert(is_lane(after, lanes.len() as int, id));
        lemma_lane_unique(after, lanes.len() as int, id);
        assert(queued(lanes, id).push(f) =~= seq![f]);
    }
    if other != id {
        assert forall|i: int| is_lane(lanes, i, other) implies exists|j: int| #[trigger]
            is_lane(after, j, other) && after[j].frames == (#[trigger] lanes[i]).frames by {
            assert(is_lane(after, i, other) && after[i].frames == lanes[i].frames);
        }
        assert forall|j: int| #[trigger] is_lane(after, j, other) implies exists|i: int| #[trigger]
            is_lane(lanes, i, other) by {
            assert(is_lane(lanes, j, other));
        }
        lemma_other_lane(lanes, after, other);
    }
}

/// A stream keeps its frames where its lane is the same before and after.
proof fn lemma_other_lane(before: Seq<LaneView>, after: Seq<LaneView>, id: u64)
    requires
        lanes_wf(before),
        lanes_wf(after),
        forall|i: int|
            is_lane(before, i, id) ==> exists|j: int| #[trigger]
                is_lane(after, j, id) && after[j].frames == (#[trigger] before[i]).frames,
        forall|j: int| #[trigger]
            is_lane(after, j, id) ==> exists|i: int| #[trigger] is_lane(before, i, id),
    ensures
        queued(after, id) == queued(before, id),
{
    if has_lane(before, id) {
        let i = lane_of(before, id);
        assert(is_lane(before, i, id));
        let j = choose|j: int| #[trigger]
            is_lane(after, j, id) && after[j].frames == before[i].frames;
        lemma_lane_unique(after, j, id);
    } else {
        assert forall|j: int| !is_lane(after, j, id) by {}
    }
}

/// Law: another priority leaves the frames of every stream as they are.
pub proof fn lemma_priority_keeps_frames(lanes: Seq<LaneView>, id: u64, priority: u8, other: u64)
    requires
        lanes_wf(lanes),
    ensures
        queued(reprioritized(lanes, id, priority), other) == queued(lanes, other),
{
    let after = reprioritized(lanes, id, priority);
    lemma_reprioritized_wf(lanes, id, priority);
    if has_lane(lanes, id) {
        assert(is_lane(lanes, lane_of(lanes, id), id));
        assert forall|i: int| is_lane(lanes, i, other) implies exists|j: int| #[trigger]
            is_lane(after, j, other) && after[j].frames == (#[trigger] lanes[i]).frames by {
            assert(is_lane(after, i, other) && after[i].frames == lanes[i].frames);
        }
        assert forall|j: int| #[trigger] is_lane(after, j, other) implies exists|i: int| #[trigger]
            is_lane(lanes, i, other) by {
            assert(is_lane(lanes, j, other));
        }
        lemma_other_lane(lanes, after, other);
    }
}

/// There is a next lane wherever there is any.
proof fn lemma_next_exists(lanes: Seq<LaneView>)
    requires
        lanes.len() > 0,
    ensures
        is_next(lanes, next_lane(lanes)),
    decreases lanes.len(),
{
    let front = lanes.drop_last();
    if front.len() == 0 {
        assert(is_next(lanes, 0));
    } else {
        lemma_next_exists(front);
        let k = next_lane(front);
        assert forall|j: int| 0 <= j < front.len() implies lanes[j] == #[trigger] front[j] by {}
        assert forall|j: int| 0 <= j < front.len() implies (#[trigger] lanes[j]).priority
            <= lanes[k].priority by {
            assert(front[j].priority <= front[k].priority);
        }
        assert forall|j: int| 0 <= j < k implies (#[trigger] lanes[j]).priority
            < lanes[k].priority by {
            assert(front[j].priority < front[k].priority);
        }
        let last = lanes.len() - 1;
        if lanes[last].priority > lanes[k].priority {
            assert(is_next(lanes, last));
        } else {
            assert(is_next(lanes, k));
        }
    }
}

/// Law: the frame taken is the first of its stream, no stream of a higher priority
/// waits, and the frames of every other stream stay.
pub proof fn lemma_pop_in_order(lanes: Seq<LaneView>, other: u64)
    requires
        lanes_wf(lanes),
        lanes.len() > 0,
    ensures
        ({
            let next = lanes[next_lane(lanes)];
            &&& is_next(lanes, next_lane(lanes))
            &&& next.frames == queued(lanes, next.id)
            &&& queued(popped(lanes), next.id) == queued(lanes, next.id).drop_first()
            &&& other != next.id ==> queued(popped(lanes), other) == queued(lanes, other)
        }),
{
    lemma_next_exists(lanes);
    lemma_popped_wf(lanes);
    let i = next_lane(lanes);
    let id = lanes[i].id;
    let after = popped(lanes);
    let rest = lanes.remove(i);
    assert(is_lane(lanes, i, id));
    lemma_lane_unique(lanes, i, id);
    assert forall|j: int| 0 <= j < rest.len() implies #[trigger] rest[j] == lanes[if j < i {
        j
    } else {
        j + 1
    }] by {}
    if lanes[i].frames.len() > 1 {
        assert(is_lane(after, rest.len() as int, id));
        lemma_lane_unique(after, rest.len() as int, id);
    } else {
        assert forall|j: int| 0 <= j < after.len() implies (#[trigger] after[j]).id != id by {
            assert(after[j] == rest[j]);
        }
        lemma_no_lane(after, id);
        assert(queued(lanes, id).drop_first() =~= Seq::empty());
    }
    if other != id {
        assert forall|k: int| is_lane(lanes, k, other) implies exists|j: int| #[trigger]
            is_lane(after, j, other) && after[j].frames == (#[trigger] lanes[k]).frames by {
            let j = if k < i {
                k
            } else {
                k - 1
            };
            assert(rest[j] == lanes[k]);
            assert(is_lane(after, j, other) && after[j].frames == lanes[k].frames);
        }
        assert forall|j: int| #[trigger] is_lane(after, j, other) implies exists|k: int| #[trigger]
            is_lane(lanes, k, other) by {
            let k = if j < i {
                j
            } else {
                j + 1
            };
            assert(after[j] == rest[j]);
            assert(is_lane(lanes, k, other));
        }
        lemma_other_lane(lanes, after, other);
    }
}

/// Law: streams of the same priority take turns. After one was served, another of
/// the same priority that waits is served before it.
pub proof fn lemma_equals_take_turns(lanes: Seq<LaneView>, other: int)
    requires
        lanes_wf(lanes),
        0 <= other < lanes.len(),
        other != next_lane(lanes),
        lanes[other].priority == lanes[next_lane(lanes)].priority,
    ensures
        popped(lanes).len() > 0,
        popped(lanes)[next_lane(popped(lanes))].id != lanes[next_lane(lanes)].id,
{
    lemma_next_exists(lanes);
    lemma_popped_wf(lanes);
    let i = next_lane(lanes);
    let rest = lanes.remove(i);
    let after = popped(lanes);
    assert forall|j: int| 0 <= j < rest.len() implies #[trigger] rest[j] == lanes[if j < i {
        j
    } else {
        j + 1
    }] by {}
    let k = if other < i {
        other
    } else {
        other - 1
    };
    assert(rest[k] == lanes[other]);
    assert(after[k] == rest[k]);
    lemma_next_exists(after);
    let m = next_lane(after);
    if m < rest.len() {
        let from = if m < i {
            m
        } else {
            m + 1
        };
        assert(after[m] == rest[m]);
        assert(rest[m] == lanes[from]);
        assert(lanes[from].id != lanes[i].id);
    } else {
        assert(after[k].priority < after[m].priority);
    }
}

/// Something that happens to a queue.
pub enum QueueStep {
    /// A frame is queued for a stream.
    Push { priority: u8, id: u64, frame: FrameView },
    /// A stream gets another priority.
    Prioritize { id: u64, priority: u8 },
    /// The next frame is taken, if one waits.
    Pop,
}

/// The lanes after a step.
pub open spec fn stepped(lanes: Seq<LaneView>, step: QueueStep) -> Seq<LaneView> {
    match step {
        QueueStep::Push { priority, id, frame } => pushed(lanes, priority, id, frame),
        QueueStep::Prioritize { id, priority } => reprioritized(lanes, id, priority),
        QueueStep::Pop => if lanes.len() > 0 {
            popped(lanes)
        } else {
            lanes
        },
    }
}

/// The lanes after a run of steps.
pub open spec fn stepped_through(lanes: Seq<LaneView>, steps: Seq<QueueStep>) -> Seq<LaneView>
    decreases steps.len(),
{
    if steps.len() == 0 {
        lanes
    } else {
        stepped_through(stepped(lanes, steps[0]), steps.drop_first())
    }
}

/// The frames that a run of steps queues for stream `id`, in order.
pub open spec fn frames_pushed(steps: Seq<QueueStep>, id: u64) -> Seq<FrameView>
    decreases steps.len(),
{
    if steps.len() == 0 {
        Seq::empty()
    } else {
        let rest = frames_pushed(steps.drop_first(), id);
        match steps[0] {
            QueueStep::Push { id: i, frame, .. } if i == id => seq![frame] + rest,
            _ => rest,
        }
    }
}

/// The frames of stream `id` that a run of steps takes, in order.
pub open spec fn frames_popped(lanes: Seq<LaneView>, steps: Seq<QueueStep>, id: u64) -> Seq<
    FrameView,
>
    decreases steps.len(),
{
    if steps.len() == 0 {
        Seq::empty()
    } else {
        let rest = frames_popped(stepped(lanes, steps[0]), steps.drop_first(), id);
        if steps[0] is Pop && lanes.len() > 0 && lanes[next_lane(lanes)].id == id {
            seq![lanes[next_lane(lanes)].frames[0]] + rest
        } else {
            rest
        }
    }
}

/// Law: whatever the priorities, the frames of a stream leave the queue in the
/// order in which they were queued. None is lost and none is added.
pub proof fn lemma_schedule_keeps_order(lanes: Seq<LaneView>, steps: Seq<QueueStep>, id: u64)
    requires
        lanes_wf(lanes),
    ensures
        lanes_wf(stepped_through(lanes, steps)),
        queued(lanes, id) + frames_pushed(steps, id) == frames_popped(lanes, steps, id) + queued(
            stepped_through(lanes, steps),
            id,
        ),
    decreases steps.len(),
{
    if steps.len() == 0 {
        assert(queued(lanes, id) + frames_pushed(steps, id) =~= frames_popped(lanes, steps, id)
            + queued(lanes, id));
    } else {
        let next = stepped(lanes, steps[0]);
        let rest = steps.drop_first();
        let pushes = frames_pushed(rest, id);
        let pops = frames_popped(next, rest, id);
        let left = queued(stepped_through(next, rest), id);
        match steps[0] {
            QueueStep::Push { priority, id: i, frame } => {
                lemma_pushed_wf(lanes, priority, i, frame);
                lemma_push_keeps_order(lanes, priority, i, frame, id);
                lemma_schedule_keeps_order(next, rest, id);
                if i == id {
                    assert(queued(lanes, id) + (seq![frame] + pushes) =~= queued(lanes, id).push(
                        frame,
                    ) + pushes);
                }
            },
            QueueStep::Prioritize { id: i, priority } => {
                lemma_reprioritized_wf(lanes, i, priority);
                lemma_priority_keeps_frames(lanes, i, priority, id);
                lemma_schedule_keeps_order(next, rest, id);
            },
            QueueStep::Pop => {
                if lanes.len() > 0 {
                    lemma_pop_in_order(lanes, id);
                    lemma_popped_wf(lanes);
                    lemma_schedule_keeps_order(next, rest, id);
                    let lane = lanes[next_lane(lanes)];
                    if lane.id == id {
                        let first = lane.frames[0];
                        assert(lane.frames.len() > 0);
                        assert(queued(lanes, id) =~= seq![first] + queued(next, id));
                        assert(seq![first] + queued(next, id) + pushes =~= seq![first] + (queued(
                            next,
                            id,
                        ) + pushes));
                        assert(seq![first] + (pops + left) =~= (seq![first] + pops) + left);
                    }
                } else {
                    lemma_schedule_keeps_order(next, rest, id);
                }
            },
        }
    }
}

/// Law: of the streams that wait, one with the highest priority is served, and of
/// several such the one whose turn came first. It then goes behind all the others.
pub proof fn lemma_highest_priority_served(lanes: Seq<LaneView>)
    requires
        lanes_wf(lanes),
        lanes.len() > 0,
    ensures
        ({
            let i = next_lane(lanes);
            let after = popped(lanes);
            &&& 0 <= i < lanes.len()
            &&& forall|j: int|
                0 <= j < lanes.len() ==> (#[trigger] lanes[j]).priority <= lanes[i].priority
            &&& forall|j: int|
                0 <= j < i ==> (#[trigger] lanes[j]).priority < lanes[i].priority
            &&& lanes[i].frames.len() == 1 ==> after == lanes.take(i) + lanes.skip(i + 1)
            &&& lanes[i].frames.len() > 1 ==> after == (lanes.take(i) + lanes.skip(i + 1)).push(
                LaneView {
                    id: lanes[i].id,
                    priority: lanes[i].priority,
                    frames: lanes[i].frames.skip(1),
                },
            )
        }),
{
    lemma_next_exists(lanes);
    let i = next_lane(lanes);
    assert(lanes.remove(i) =~= lanes.take(i) + lanes.skip(i + 1));
    assert(lanes[i].frames.len() > 0);
    assert(lanes[i].frames.skip(1) =~= lanes[i].frames.drop_first());
}

/// Law: a stream is served at the priority it was last given, with a frame or alone.
/// It keeps its turn, and the other streams keep theirs.
pub proof fn lemma_priority_takes_effect(
    lanes: Seq<LaneView>,
    i: int,
    priority: u8,
    f: FrameView,
)
    requires
        lanes_wf(lanes),
        0 <= i < lanes.len(),
    ensures
        reprioritized(lanes, lanes[i].id, priority) == lanes.update(
            i,
            LaneView { id: lanes[i].id, priority, frames: lanes[i].frames },
        ),
        pushed(lanes, priority, lanes[i].id, f) == lanes.update(
            i,
            LaneView { id: lanes[i].id, priority, frames: lanes[i].frames.push(f) },
        ),
{
    assert(is_lane(lanes, i, lanes[i].id));
    lemma_lane_unique(lanes, i, lanes[i].id);
}

/// Law: the first frame of a stream gives it the last turn, at its priority. A new
/// priority of a stream that does not wait changes nothing.
pub proof fn lemma_new_stream_comes_last(
    lanes: Seq<LaneView>,
    id: u64,
    priority: u8,
    f: FrameView,
)
    requires
        forall|i: int| 0 <= i < lanes.len() ==> (#[trigger] lanes[i]).id != id,
    ensures
        pushed(lanes, priority, id, f) == lanes.push(LaneView { id, priority, frames: seq![f] }),
        reprioritized(lanes, id, priority) == lanes,
        queued(lanes, id).len() == 0,
{
    lemma_no_lane(lanes, id);
}

proof fn lemma_total_push(lanes: Seq<LaneView>, lane: LaneView)
    ensures
        total(lanes.push(lane)) == total(lanes) + lane.frames.len(),
{
    assert(lanes.push(lane).drop_last() =~= lanes);
}

proof fn lemma_total_parts(a: Seq<LaneView>, b: Seq<LaneView>)
    ensures
        total(a + b) == total(a) + total(b),
    decreases b.len(),
{
    if b.len() == 0 {
        assert(a + b =~= a);
    } else {
        lemma_total_parts(a, b.drop_last());
        assert((a + b).drop_last() =~= a + b.drop_last());
    }
}

proof fn lemma_total_update(lanes: Seq<LaneView>, i: int, lane: LaneView)
    requires
        0 <= i < lanes.len(),
    ensures
        total(lanes.update(i, lane)) + lanes[i].frames.len() == total(lanes) + lane.frames.len(),
{
    let a = lanes.take(i);
    let b = lanes.skip(i + 1);
    assert(lanes =~= a.push(lanes[i]) + b);
    assert(lanes.update(i, lane) =~= a.push(lane) + b);
    lemma_total_parts(a.push(lanes[i]), b);
    lemma_total_parts(a.push(lane), b);
    lemma_total_push(a, lanes[i]);
    lemma_total_push(a, lane);
}

/// Law: how many frames wait: none at first, one more after a push, one fewer after
/// a pop, and as many after a new priority.
pub proof fn lemma_frames_counted(lanes: Seq<LaneView>, priority: u8, id: u64, f: FrameView)
    requires
        lanes_wf(lanes),
    ensures
        total(Seq::<LaneView>::empty()) == 0,
        total(pushed(lanes, priority, id, f)) == total(lanes) + 1,
        total(reprioritized(lanes, id, priority)) == total(lanes),
        lanes.len() > 0 ==> total(popped(lanes)) + 1 == total(lanes),
        lanes.len() > 0 ==> total(lanes) > 0,
{
    if has_lane(lanes, id) {
        let i = lane_of(lanes, id);
        assert(is_lane(lanes, i, id));
        lemma_total_update(lanes, i, LaneView { id, priority, frames: lanes[i].frames.push(f) });
        lemma_total_update(lanes, i, LaneView { priority, ..lanes[i] });
    } else {
        lemma_total_push(lanes, LaneView { id, priority, frames: seq![f] });
    }
    if lanes.len() > 0 {
        lemma_highest_priority_served(lanes);
        let i = next_lane(lanes);
        let a = lanes.take(i);
        let b = lanes.skip(i + 1);
        assert(lanes =~= a.push(lanes[i]) + b);
        lemma_total_parts(a.push(lanes[i]), b);
        lemma_total_push(a, lanes[i]);
        lemma_total_parts(a, b);
        assert(lanes[i].frames.len() > 0);
        if lanes[i].frames.len() > 1 {
            lemma_total_push(
                a + b,
                LaneView {
                    id: lanes[i].id,
                    priority: lanes[i].priority,
                    frames: lanes[i].frames.skip(1),
                },
            );
        }
    }
}

} // verus!
