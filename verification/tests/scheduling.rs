//! Flow-control credit and the queue of outgoing stream data.

use bytes::Bytes;
use web_transport::qmux::credit::Credit;
use web_transport::qmux::proto::{Frame, Stream, VarInt};
use web_transport::qmux::sched::{Popped, PriorityQueue};
use web_transport::qmux::{Error, StreamId};

fn frame(id: u32, byte: u8) -> (StreamId, Frame) {
    let id = StreamId(VarInt::from_u32(id));
    let data = Bytes::from(vec![byte]);
    (id, Frame::Stream(Stream { id, data, fin: false }))
}

fn popped(queue: &mut PriorityQueue) -> Option<u8> {
    match queue.pop() {
        Popped::Frame(Frame::Stream(s)) => Some(s.data[0]),
        _ => None,
    }
}

#[test]
fn credit_is_claimed_up_to_the_limit() {
    let mut credit = Credit::new(10);
    assert_eq!(credit.claim(7).unwrap(), Some(7));
    assert_eq!(credit.claim(7).unwrap(), Some(3));
    assert_eq!(credit.claim(7).unwrap(), None);
    credit.increase_max(12).unwrap();
    assert_eq!(credit.claim(7).unwrap(), Some(2));
    assert_eq!(credit.used(), 12);
    assert_eq!(credit.available(), 0);
    assert!(matches!(credit.increase_max(11), Err(Error::FlowControlError)));
}

#[test]
fn released_credit_comes_back() {
    let mut credit = Credit::new(10);
    assert_eq!(credit.try_claim(10), 10);
    credit.release(4);
    assert_eq!(credit.try_claim(10), 4);
}

#[test]
fn closed_credit_gives_nothing() {
    let mut credit = Credit::new(10);
    credit.close();
    assert!(credit.is_closed());
    assert!(matches!(credit.claim(1), Err(Error::Closed)));
    assert!(matches!(credit.claim_index(), Err(Error::Closed)));
}

#[test]
fn indices_count_up() {
    let mut credit = Credit::new(2);
    assert_eq!(credit.claim_index().unwrap(), Some(0));
    assert_eq!(credit.claim_index().unwrap(), Some(1));
    assert_eq!(credit.claim_index().unwrap(), None);
}

#[test]
fn a_receiver_announces_a_moved_window() {
    let mut credit = Credit::new(10);
    assert!(credit.receive(10));
    assert!(!credit.receive(1));
    assert_eq!(credit.consume(4), None);
    assert_eq!(credit.consume(1), Some(15));
    assert!(credit.receive(5));
    assert!(!credit.receive_up_to(16));
    assert!(credit.receive_up_to(15));
}

#[test]
fn higher_priority_goes_first() {
    let mut queue = PriorityQueue::new(8);
    for (priority, id, byte) in [(1, 0, b'a'), (9, 4, b'b'), (5, 8, b'c'), (9, 4, b'd')] {
        let (id, frame) = frame(id, byte);
        assert!(queue.push(priority, &id, frame).unwrap());
    }
    let order: Vec<u8> = std::iter::from_fn(|| popped(&mut queue)).collect();
    assert_eq!(order, b"bdca");
}

#[test]
fn equals_take_turns() {
    let mut queue = PriorityQueue::new(8);
    for (id, byte) in [(0, b'a'), (0, b'b'), (4, b'x'), (4, b'y')] {
        let (id, frame) = frame(id, byte);
        queue.push(5, &id, frame).unwrap();
    }
    let order: Vec<u8> = std::iter::from_fn(|| popped(&mut queue)).collect();
    assert_eq!(order, b"axby");
}

#[test]
fn a_full_queue_refuses_but_not_a_forced_frame() {
    let mut queue = PriorityQueue::new(1);
    let (id, first) = frame(0, b'a');
    assert!(queue.push(0, &id, first).unwrap());
    assert!(queue.is_full());
    let (id, second) = frame(0, b'b');
    assert!(!queue.push(0, &id, second).unwrap());
    let (id, third) = frame(0, b'c');
    queue.push_now(0, &id, third).unwrap();
    assert_eq!(popped(&mut queue), Some(b'a'));
    assert_eq!(popped(&mut queue), Some(b'c'));
    assert!(matches!(queue.pop(), Popped::Empty));
}

#[test]
fn a_closed_queue_takes_nothing() {
    let mut queue = PriorityQueue::new(1);
    queue.close();
    assert!(queue.is_closed());
    let (id, frame) = frame(0, b'a');
    assert!(matches!(queue.push(0, &id, frame), Err(Error::Closed)));
    assert!(matches!(queue.pop(), Popped::Closed));
}

#[test]
fn a_new_priority_moves_what_waits() {
    let mut queue = PriorityQueue::new(8);
    let (a, fa) = frame(0, b'a');
    let (b, fb) = frame(4, b'b');
    queue.push(5, &a, fa).unwrap();
    queue.push(6, &b, fb).unwrap();
    queue.set_priority(&a, 7);
    assert_eq!(popped(&mut queue), Some(b'a'));
    assert_eq!(popped(&mut queue), Some(b'b'));
}
