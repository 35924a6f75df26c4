use std::cell::Cell;
use std::rc::Rc;

use teensy_audio::io::spsc::SpscQueue;

#[test]
fn push_and_pop() {
    let mut q: SpscQueue<i32, 4> = SpscQueue::new();
    assert!(q.is_empty());
    assert_eq!(q.len(), 0);

    q.push(10).unwrap();
    assert_eq!(q.len(), 1);
    assert!(!q.is_empty());

    q.push(20).unwrap();
    q.push(30).unwrap();
    assert_eq!(q.len(), 3);
    assert!(q.is_full());

    assert_eq!(q.push(40), Err(40));

    assert_eq!(q.pop(), Some(10));
    assert_eq!(q.pop(), Some(20));
    assert_eq!(q.pop(), Some(30));
    assert_eq!(q.pop(), None);
    assert!(q.is_empty());
}

#[test]
fn empty_pop_returns_none() {
    let mut q: SpscQueue<u8, 3> = SpscQueue::new();
    assert_eq!(q.pop(), None);
    assert_eq!(q.pop(), None);
}

#[test]
fn single_slot_queue() {
    let mut q: SpscQueue<i32, 2> = SpscQueue::new();
    q.push(42).unwrap();
    assert!(q.is_full());
    assert_eq!(q.push(99), Err(99));
    assert_eq!(q.pop(), Some(42));
    assert!(q.is_empty());
}

#[test]
fn wraparound() {
    let mut q: SpscQueue<i32, 3> = SpscQueue::new();
    for round in 0..10 {
        let base = round * 100;
        q.push(base + 1).unwrap();
        q.push(base + 2).unwrap();
        assert!(q.is_full());

        assert_eq!(q.pop(), Some(base + 1));
        assert_eq!(q.pop(), Some(base + 2));
        assert!(q.is_empty());
    }
}

#[test]
fn interleaved_push_pop() {
    let mut q: SpscQueue<i32, 4> = SpscQueue::new();

    q.push(1).unwrap();
    q.push(2).unwrap();
    assert_eq!(q.pop(), Some(1));

    q.push(3).unwrap();
    q.push(4).unwrap();
    assert_eq!(q.pop(), Some(2));
    assert_eq!(q.pop(), Some(3));
    assert_eq!(q.pop(), Some(4));
    assert_eq!(q.pop(), None);
}

#[test]
fn len_tracks_correctly() {
    let mut q: SpscQueue<i32, 5> = SpscQueue::new();
    assert_eq!(q.len(), 0);

    q.push(1).unwrap();
    assert_eq!(q.len(), 1);

    q.push(2).unwrap();
    assert_eq!(q.len(), 2);

    q.pop();
    assert_eq!(q.len(), 1);

    q.pop();
    assert_eq!(q.len(), 0);
}

struct Trackable {
    drops: Rc<Cell<usize>>,
}

impl Drop for Trackable {
    fn drop(&mut self) {
        self.drops.set(self.drops.get() + 1);
    }
}

#[test]
fn drop_cleans_up_remaining() {
    let drops = Rc::new(Cell::new(0));
    {
        let mut q: SpscQueue<Trackable, 4> = SpscQueue::new();
        assert!(q.push(Trackable { drops: drops.clone() }).is_ok());
        assert!(q.push(Trackable { drops: drops.clone() }).is_ok());
    }
    assert_eq!(drops.get(), 2);
}

#[test]
fn fifo_with_capacity_values_then_rejects_next() {
    let mut q: SpscQueue<u32, 5> = SpscQueue::new();
    for v in [7u32, 8, 9, 10] {
        assert_eq!(q.push(v), Ok(()));
    }
    assert_eq!(q.push(11), Err(11));
    for v in [7u32, 8, 9, 10] {
        assert_eq!(q.pop(), Some(v));
    }
    assert_eq!(q.pop(), None);
}
