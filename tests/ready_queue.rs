use unordered_tasks::ready_to_run_queue::{Dequeue, ReadyToRunQueue};

fn queue_with_slots(n: usize) -> ReadyToRunQueue {
    let mut q = ReadyToRunQueue::new();
    for _ in 0..n {
        q.add_slot();
    }
    q
}

#[test]
fn dequeue_on_new_queue_is_empty() {
    let mut q = ReadyToRunQueue::new();
    assert!(matches!(q.dequeue(), Dequeue::Empty));
    assert!(matches!(q.dequeue(), Dequeue::Empty));
}

#[test]
fn stub_is_slot_zero() {
    let q = ReadyToRunQueue::new();
    assert_eq!(q.stub(), 0);
}

#[test]
fn add_slot_hands_out_consecutive_indices() {
    let mut q = ReadyToRunQueue::new();
    assert_eq!(q.add_slot(), 1);
    assert_eq!(q.add_slot(), 2);
    assert_eq!(q.add_slot(), 3);
}

#[test]
fn dequeue_follows_enqueue_order() {
    let mut q = queue_with_slots(3);
    q.enqueue(2);
    q.enqueue(1);
    q.enqueue(3);
    let mut out = Vec::new();
    loop {
        match q.dequeue() {
            Dequeue::Data(t) => out.push(t),
            Dequeue::Empty => break,
            Dequeue::Inconsistent => panic!("queue caught mid-insert"),
        }
    }
    assert_eq!(out, vec![2, 1, 3]);
}

#[test]
fn single_item_is_handed_out_through_the_stub() {
    let mut q = queue_with_slots(1);
    q.enqueue(1);
    assert!(matches!(q.dequeue(), Dequeue::Data(1)));
    assert!(matches!(q.dequeue(), Dequeue::Empty));
    q.enqueue(1);
    assert!(matches!(q.dequeue(), Dequeue::Data(1)));
    assert!(matches!(q.dequeue(), Dequeue::Empty));
}

#[test]
fn interleaved_enqueue_and_dequeue() {
    let mut q = queue_with_slots(4);
    q.enqueue(1);
    q.enqueue(2);
    assert!(matches!(q.dequeue(), Dequeue::Data(1)));
    q.enqueue(3);
    assert!(matches!(q.dequeue(), Dequeue::Data(2)));
    q.enqueue(1);
    q.enqueue(4);
    assert!(matches!(q.dequeue(), Dequeue::Data(3)));
    assert!(matches!(q.dequeue(), Dequeue::Data(1)));
    assert!(matches!(q.dequeue(), Dequeue::Data(4)));
    assert!(matches!(q.dequeue(), Dequeue::Empty));
}

#[test]
fn drain_returns_every_push_of_every_producer_once() {
    let producers = 3usize;
    let pushes = 4usize;
    let mut q = queue_with_slots(producers * pushes);
    let mut expected = Vec::new();
    for round in 0..pushes {
        for p in 0..producers {
            let slot = 1 + p * pushes + round;
            q.enqueue(slot);
            expected.push(slot);
        }
    }
    let drained = q.drain();
    assert_eq!(drained.len(), producers * pushes);
    assert_eq!(drained, expected);
    let mut sorted = drained.clone();
    sorted.sort();
    sorted.dedup();
    assert_eq!(sorted.len(), producers * pushes);
    assert!(matches!(q.dequeue(), Dequeue::Empty));
}

#[test]
fn drain_of_empty_queue_is_empty() {
    let mut q = queue_with_slots(2);
    assert!(q.drain().is_empty());
    q.enqueue(2);
    assert_eq!(q.drain(), vec![2]);
    assert!(q.drain().is_empty());
}
