use rraft::msg::Message;
use rraft::sched::MessageQueue;

fn ping(n: u64) -> Message {
    Message::RequestVoteResponse { term: n, vote_granted: false, from: 0 }
}

#[test]
fn queue_pops_earliest_first() {
    let mut q = MessageQueue::new();
    q.push(30, 0, 1, ping(1));
    q.push(10, 1, 2, ping(2));
    q.push(20, 2, 0, ping(3));
    assert_eq!(q.len(), 3);

    // nothing is due yet
    assert!(q.pop_due(5).is_none());
    assert_eq!(q.len(), 3);

    let a = q.pop_due(100).unwrap();
    let b = q.pop_due(100).unwrap();
    let c = q.pop_due(100).unwrap();
    assert_eq!(a.delivery_time, 10);
    assert_eq!(b.delivery_time, 20);
    assert_eq!(c.delivery_time, 30);
    assert!(q.is_empty());
    assert!(q.pop_due(100).is_none());
}

#[test]
fn queue_respects_due_time() {
    let mut q = MessageQueue::new();
    q.push(10, 0, 1, ping(1));
    q.push(40, 0, 1, ping(2));
    let a = q.pop_due(25).unwrap();
    assert_eq!(a.delivery_time, 10);
    // the remaining delivery is not due at 25
    assert!(q.pop_due(25).is_none());
    assert_eq!(q.len(), 1);
    let b = q.pop_due(40).unwrap();
    assert_eq!(b.delivery_time, 40);
}

#[test]
fn queue_breaks_ties_by_insertion_order() {
    let mut q = MessageQueue::new();
    q.push(10, 7, 1, ping(1));
    q.push(10, 8, 1, ping(2));
    q.push(10, 9, 1, ping(3));
    let a = q.pop_due(10).unwrap();
    let b = q.pop_due(10).unwrap();
    let c = q.pop_due(10).unwrap();
    assert_eq!((a.from, b.from, c.from), (7, 8, 9));
    assert!(a.seq < b.seq && b.seq < c.seq);
}
