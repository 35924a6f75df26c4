use teensy_audio::block::{AudioBlockMut, AudioBlockPool};
use teensy_audio::constants::{AUDIO_BLOCK_SAMPLES, POOL_SIZE};

#[test]
fn alloc_returns_slot() {
    let mut pool = AudioBlockPool::new();
    let slot = pool.allocate();
    assert!(slot.is_some());
    let slot = slot.unwrap();
    assert!(slot < POOL_SIZE as u8);
    assert_eq!(pool.refcount(slot), 1);
}

#[test]
fn alloc_zeroes_data() {
    let mut pool = AudioBlockPool::new();
    let slot = pool.allocate().unwrap();
    pool.set_sample(slot, 5, 1234);
    pool.dec_ref(slot);
    let again = pool.allocate().unwrap();
    assert_eq!(again, slot);
    for &s in pool.block(again).iter() {
        assert_eq!(s, 0);
    }
}

#[test]
fn alloc_unique_slots() {
    let mut pool = AudioBlockPool::new();
    let mut slots = [0u8; POOL_SIZE];
    for s in slots.iter_mut() {
        *s = pool.allocate().unwrap();
    }
    slots.sort();
    for i in 0..POOL_SIZE - 1 {
        assert_ne!(slots[i], slots[i + 1]);
    }
}

#[test]
fn alloc_exhaustion() {
    let mut pool = AudioBlockPool::new();
    for _ in 0..POOL_SIZE {
        assert!(pool.allocate().is_some());
    }
    assert!(pool.allocate().is_none());
}

#[test]
fn dealloc_frees_slot() {
    let mut pool = AudioBlockPool::new();
    let slot = pool.allocate().unwrap();
    assert_eq!(pool.allocated_count(), 1);
    pool.dec_ref(slot);
    assert_eq!(pool.allocated_count(), 0);
    let slot2 = pool.allocate().unwrap();
    assert!(slot2 < POOL_SIZE as u8);
}

#[test]
fn refcount_lifecycle() {
    let mut pool = AudioBlockPool::new();
    let slot = pool.allocate().unwrap();
    assert_eq!(pool.refcount(slot), 1);

    pool.inc_ref(slot);
    assert_eq!(pool.refcount(slot), 2);

    pool.dec_ref(slot);
    assert_eq!(pool.refcount(slot), 1);
    assert_eq!(pool.allocated_count(), 1);

    pool.dec_ref(slot);
    assert_eq!(pool.allocated_count(), 0);
}

#[test]
fn allocations_take_lowest_slots_in_order() {
    let mut pool = AudioBlockPool::new();
    for i in 0..POOL_SIZE {
        assert_eq!(pool.allocate(), Some(i as u8));
    }
    assert_eq!(pool.allocate(), None);
    pool.dec_ref(7);
    assert_eq!(pool.allocate(), Some(7));
}

#[test]
fn inc_ref_refuses_free_and_saturated_slots() {
    let mut pool = AudioBlockPool::new();
    assert!(!pool.inc_ref(3));
    assert_eq!(pool.refcount(3), 0);
    let slot = pool.allocate().unwrap();
    for _ in 0..254 {
        assert!(pool.inc_ref(slot));
    }
    assert_eq!(pool.refcount(slot), 255);
    assert!(!pool.inc_ref(slot));
    assert_eq!(pool.refcount(slot), 255);
}

#[test]
fn dec_ref_of_free_slot_is_noop() {
    let mut pool = AudioBlockPool::new();
    pool.dec_ref(4);
    assert_eq!(pool.refcount(4), 0);
    assert_eq!(pool.allocated_count(), 0);
}

#[test]
fn live_count_tracks_handles() {
    let mut pool = AudioBlockPool::new();
    let a = AudioBlockMut::allocate(&mut pool).unwrap().into_shared();
    let b = AudioBlockMut::allocate(&mut pool).unwrap().into_shared();
    let a2 = a.duplicate(&mut pool).unwrap();
    assert_eq!(pool.allocated_count(), 2);
    a.release(&mut pool);
    assert_eq!(pool.allocated_count(), 2);
    a2.release(&mut pool);
    assert_eq!(pool.allocated_count(), 1);
    b.release(&mut pool);
    assert_eq!(pool.allocated_count(), 0);
}

#[test]
fn reset_frees_everything() {
    let mut pool = AudioBlockPool::new();
    for _ in 0..5 {
        pool.allocate();
    }
    pool.reset();
    assert_eq!(pool.allocated_count(), 0);
    assert_eq!(pool.allocate(), Some(0));
}

#[test]
fn block_size_is_128() {
    assert_eq!(AUDIO_BLOCK_SAMPLES, 128);
}
