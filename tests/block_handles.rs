use teensy_audio::block::{AudioBlockMut, AudioBlockPool};

#[test]
fn alloc_and_drop() {
    let mut pool = AudioBlockPool::new();
    {
        let block = AudioBlockMut::allocate(&mut pool).unwrap();
        assert_eq!(pool.allocated_count(), 1);
        assert_eq!(pool.refcount(block.slot()), 1);
        block.release(&mut pool);
    }
    assert_eq!(pool.allocated_count(), 0);
}

#[test]
fn write_and_read() {
    let mut pool = AudioBlockPool::new();
    let mut block = AudioBlockMut::allocate(&mut pool).unwrap();
    block.set(&mut pool, 0, 1234);
    block.set(&mut pool, 127, -5678);
    assert_eq!(block.get(&pool, 0), 1234);
    assert_eq!(block.get(&pool, 127), -5678);
}

#[test]
fn into_shared() {
    let mut pool = AudioBlockPool::new();
    let mut block = AudioBlockMut::allocate(&mut pool).unwrap();
    block.set(&mut pool, 0, 42);
    let slot = block.slot();

    let shared = block.into_shared();
    assert_eq!(shared.slot(), slot);
    assert_eq!(shared.get(&pool, 0), 42);
    assert_eq!(pool.refcount(slot), 1);
    assert_eq!(pool.allocated_count(), 1);
}

#[test]
fn shared_clone_and_drop() {
    let mut pool = AudioBlockPool::new();
    let mut block = AudioBlockMut::allocate(&mut pool).unwrap();
    block.set(&mut pool, 0, 99);
    let slot = block.slot();
    let shared = block.into_shared();

    let shared2 = shared.duplicate(&mut pool).unwrap();
    assert_eq!(pool.refcount(slot), 2);
    assert_eq!(shared2.get(&pool, 0), 99);

    shared.release(&mut pool);
    assert_eq!(pool.refcount(slot), 1);
    assert_eq!(pool.allocated_count(), 1);

    shared2.release(&mut pool);
    assert_eq!(pool.allocated_count(), 0);
}

#[test]
fn into_mut_sole_owner() {
    let mut pool = AudioBlockPool::new();
    let mut block = AudioBlockMut::allocate(&mut pool).unwrap();
    block.set(&mut pool, 0, 77);
    let slot = block.slot();
    let shared = block.into_shared();

    let mut exclusive = shared.into_mut(&mut pool).unwrap();
    assert_eq!(exclusive.slot(), slot);
    assert_eq!(exclusive.get(&pool, 0), 77);
    exclusive.set(&mut pool, 0, 88);
    assert_eq!(exclusive.get(&pool, 0), 88);
}

#[test]
fn into_mut_clone_on_write() {
    let mut pool = AudioBlockPool::new();
    let mut block = AudioBlockMut::allocate(&mut pool).unwrap();
    block.set(&mut pool, 0, 55);
    let slot = block.slot();
    let shared = block.into_shared();
    let shared2 = shared.duplicate(&mut pool).unwrap();
    assert_eq!(pool.refcount(slot), 2);

    let mut exclusive = shared.into_mut(&mut pool).unwrap();
    assert_ne!(exclusive.slot(), slot);
    assert_eq!(exclusive.get(&pool, 0), 55);
    exclusive.set(&mut pool, 0, 66);

    assert_eq!(shared2.get(&pool, 0), 55);
    assert_eq!(pool.refcount(slot), 1);
}

#[test]
fn into_mut_copy_is_bit_exact() {
    let mut pool = AudioBlockPool::new();
    let mut block = AudioBlockMut::allocate(&mut pool).unwrap();
    for i in 0..128 {
        block.set(&mut pool, i, (i as i16).wrapping_mul(257).wrapping_sub(16000));
    }
    let shared = block.into_shared();
    let keep = shared.duplicate(&mut pool).unwrap();
    let before = keep.samples(&pool);
    let copy = shared.into_mut(&mut pool).unwrap();
    assert_ne!(copy.slot(), keep.slot());
    assert_eq!(copy.samples(&pool), before);
}

#[test]
fn into_mut_fails_on_exhausted_pool_and_releases() {
    let mut pool = AudioBlockPool::new();
    let block = AudioBlockMut::allocate(&mut pool).unwrap();
    let slot = block.slot();
    let shared = block.into_shared();
    let other = shared.duplicate(&mut pool).unwrap();
    while pool.allocate().is_some() {}
    assert!(shared.into_mut(&mut pool).is_none());
    assert_eq!(pool.refcount(slot), 1);
    other.release(&mut pool);
    assert_eq!(pool.refcount(slot), 0);
}

#[test]
fn fill_and_copy_from() {
    let mut pool = AudioBlockPool::new();
    let mut block = AudioBlockMut::allocate(&mut pool).unwrap();
    block.fill(&mut pool, -3);
    assert!(block.samples(&pool).iter().all(|&s| s == -3));
    let mut data = [0i16; 128];
    data[9] = 9;
    block.copy_from(&mut pool, &data);
    assert_eq!(block.samples(&pool), data);
}
