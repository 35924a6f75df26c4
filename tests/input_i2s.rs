use teensy_audio::block::{AudioBlockMut, AudioBlockPool};
use teensy_audio::constants::AUDIO_BLOCK_SAMPLES;
use teensy_audio::io::{AudioInputI2S, DmaHalf};

#[test]
fn input_i2s_new_has_no_blocks() {
    let input = AudioInputI2S::new(false);
    assert!(!input.has_working_blocks());
    assert_eq!(input.block_offset(), 0);
    assert!(!input.has_update_responsibility());
}

#[test]
fn update_allocates_working_blocks() {
    let mut pool = AudioBlockPool::new();
    let mut input = AudioInputI2S::new(false);
    let mut outputs = [None, None];

    input.update(&mut pool, &[], &mut outputs);

    assert!(input.has_working_blocks());
    assert_eq!(input.block_offset(), 0);
    assert!(outputs[0].is_none());
    assert!(outputs[1].is_none());
}

#[test]
fn isr_fills_working_blocks() {
    let mut pool = AudioBlockPool::new();
    let mut input = AudioInputI2S::new(false);
    let mut outputs = [None, None];
    input.update(&mut pool, &[], &mut outputs);

    let half_len = AUDIO_BLOCK_SAMPLES / 2;
    let mut dma_buf = [0u32; AUDIO_BLOCK_SAMPLES];
    for i in 0..AUDIO_BLOCK_SAMPLES {
        let left = (i * 10) as i16;
        let right = (i * 10 + 5) as i16;
        dma_buf[i] = (left as u16 as u32) | ((right as u16 as u32) << 16);
    }

    input.isr(&mut pool, &dma_buf, DmaHalf::First);
    assert_eq!(input.block_offset(), half_len);

    input.isr(&mut pool, &dma_buf, DmaHalf::Second);
    assert_eq!(input.block_offset(), AUDIO_BLOCK_SAMPLES);
}

#[test]
fn update_provides_filled_blocks() {
    let mut pool = AudioBlockPool::new();
    let mut input = AudioInputI2S::new(false);
    let mut outputs = [None, None];
    input.update(&mut pool, &[], &mut outputs);

    let mut dma_buf = [0u32; AUDIO_BLOCK_SAMPLES];
    for i in 0..AUDIO_BLOCK_SAMPLES {
        dma_buf[i] = (100u16 as u32) | ((200u16 as u32) << 16);
    }

    input.isr(&mut pool, &dma_buf, DmaHalf::First);
    input.isr(&mut pool, &dma_buf, DmaHalf::Second);

    let mut outputs = [None, None];
    input.update(&mut pool, &[], &mut outputs);

    assert!(outputs[0].is_some(), "expected left output");
    assert!(outputs[1].is_some(), "expected right output");

    let left = outputs[0].as_ref().unwrap();
    let right = outputs[1].as_ref().unwrap();

    for i in 0..AUDIO_BLOCK_SAMPLES {
        assert_eq!(left.get(&pool, i), 100, "left mismatch at {i}");
        assert_eq!(right.get(&pool, i), 200, "right mismatch at {i}");
    }
}

#[test]
fn isr_without_working_blocks_is_safe() {
    let mut pool = AudioBlockPool::new();
    let mut input = AudioInputI2S::new(false);
    let dma_buf = [0u32; AUDIO_BLOCK_SAMPLES];

    input.isr(&mut pool, &dma_buf, DmaHalf::First);
    input.isr(&mut pool, &dma_buf, DmaHalf::Second);
    assert_eq!(input.block_offset(), 0);
}

#[test]
fn input_i2s_isr_signals_update_correctly() {
    let mut pool = AudioBlockPool::new();
    let mut input_responsible = AudioInputI2S::new(true);
    let mut input_not = AudioInputI2S::new(false);
    let dma_buf = [0u32; AUDIO_BLOCK_SAMPLES];

    assert!(input_responsible.isr(&mut pool, &dma_buf, DmaHalf::First));
    assert!(!input_responsible.isr(&mut pool, &dma_buf, DmaHalf::Second));

    assert!(!input_not.isr(&mut pool, &dma_buf, DmaHalf::First));
    assert!(!input_not.isr(&mut pool, &dma_buf, DmaHalf::Second));
}

#[test]
fn update_cycle_rotation() {
    let mut pool = AudioBlockPool::new();
    let mut input = AudioInputI2S::new(false);
    let dma_buf = [0u32; AUDIO_BLOCK_SAMPLES];

    let mut outputs = [None, None];
    input.update(&mut pool, &[], &mut outputs);
    assert!(input.has_working_blocks());

    input.isr(&mut pool, &dma_buf, DmaHalf::First);
    input.isr(&mut pool, &dma_buf, DmaHalf::Second);
    assert_eq!(input.block_offset(), AUDIO_BLOCK_SAMPLES);

    let mut outputs = [None, None];
    input.update(&mut pool, &[], &mut outputs);
    assert!(outputs[0].is_some());
    assert!(outputs[1].is_some());
    assert!(input.has_working_blocks());
    assert_eq!(input.block_offset(), 0);
}

#[test]
fn pool_exhaustion_handled_gracefully() {
    let mut pool = AudioBlockPool::new();
    let mut input = AudioInputI2S::new(false);

    let mut blocks = Vec::new();
    for _ in 0..32 {
        blocks.push(AudioBlockMut::allocate(&mut pool).unwrap());
    }

    let mut outputs = [None, None];
    input.update(&mut pool, &[], &mut outputs);
    assert!(!input.has_working_blocks());
    assert!(outputs[0].is_none());
    assert!(outputs[1].is_none());
}

#[test]
fn known_buffer_deinterleaves_exactly() {
    let mut pool = AudioBlockPool::new();
    let mut input = AudioInputI2S::new(false);
    let mut outputs = [None, None];
    input.update(&mut pool, &[], &mut outputs);

    let mut dma_buf = [0u32; AUDIO_BLOCK_SAMPLES];
    for i in 0..AUDIO_BLOCK_SAMPLES {
        let l = (i as i16) * 3 - 100;
        let r = -(i as i16) * 7;
        dma_buf[i] = (l as u16 as u32) | ((r as u16 as u32) << 16);
    }
    // the First interrupt reads words 64..128, the Second words 0..64
    input.isr(&mut pool, &dma_buf, DmaHalf::First);
    input.isr(&mut pool, &dma_buf, DmaHalf::Second);
    let mut outputs = [None, None];
    input.update(&mut pool, &[], &mut outputs);
    let left = outputs[0].as_ref().unwrap().samples(&pool);
    let right = outputs[1].as_ref().unwrap().samples(&pool);
    for k in 0..AUDIO_BLOCK_SAMPLES {
        let word = if k < 64 { 64 + k } else { k - 64 };
        assert_eq!(left[k], (word as i16) * 3 - 100);
        assert_eq!(right[k], -(word as i16) * 7);
    }
}

#[test]
fn exhausted_pool_recovers_after_release() {
    let mut pool = AudioBlockPool::new();
    let mut input = AudioInputI2S::new(false);
    let mut blocks = Vec::new();
    for _ in 0..31 {
        blocks.push(AudioBlockMut::allocate(&mut pool).unwrap());
    }
    let mut outputs = [None, None];
    input.update(&mut pool, &[], &mut outputs);
    assert!(!input.has_working_blocks());
    assert_eq!(pool.allocated_count(), 31);
    blocks.pop().unwrap().release(&mut pool);
    input.update(&mut pool, &[], &mut outputs);
    assert!(input.has_working_blocks());
    assert_eq!(pool.allocated_count(), 32);
}
