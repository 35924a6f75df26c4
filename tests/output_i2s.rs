use teensy_audio::block::{AudioBlockMut, AudioBlockPool, AudioBlockRef};
use teensy_audio::constants::AUDIO_BLOCK_SAMPLES;
use teensy_audio::io::{AudioOutputI2S, DmaHalf};

fn make_block(pool: &mut AudioBlockPool, value: i16) -> AudioBlockRef {
    let mut block = AudioBlockMut::allocate(pool).unwrap();
    block.fill(pool, value);
    block.into_shared()
}

fn make_ramp_block(pool: &mut AudioBlockPool, start: i16) -> AudioBlockRef {
    let mut block = AudioBlockMut::allocate(pool).unwrap();
    for i in 0..AUDIO_BLOCK_SAMPLES {
        block.set(pool, i, start.wrapping_add(i as i16));
    }
    block.into_shared()
}

fn feed(output: &mut AudioOutputI2S, pool: &mut AudioBlockPool, left: Option<AudioBlockRef>, right: Option<AudioBlockRef>) {
    let inputs = [left, right];
    output.update(pool, &inputs, &mut []);
    for b in inputs.into_iter().flatten() {
        b.release(pool);
    }
}

#[test]
fn output_i2s_new_has_no_blocks() {
    let output = AudioOutputI2S::new(true);
    assert!(!output.has_left_block());
    assert!(!output.has_right_block());
    assert!(output.has_update_responsibility());
}

#[test]
fn update_queues_blocks() {
    let mut pool = AudioBlockPool::new();
    let mut output = AudioOutputI2S::new(false);
    let left = make_block(&mut pool, 100);
    let right = make_block(&mut pool, 200);

    output.update(&mut pool, &[Some(left), Some(right)], &mut []);

    assert!(output.has_left_block());
    assert!(output.has_right_block());
}

#[test]
fn update_double_buffer() {
    let mut pool = AudioBlockPool::new();
    let mut output = AudioOutputI2S::new(false);

    let left1 = make_block(&mut pool, 10);
    let right1 = make_block(&mut pool, 20);
    output.update(&mut pool, &[Some(left1), Some(right1)], &mut []);
    assert!(output.has_left_block());
    assert!(!output.has_second_left_block());

    let left2 = make_block(&mut pool, 30);
    let right2 = make_block(&mut pool, 40);
    output.update(&mut pool, &[Some(left2), Some(right2)], &mut []);
    assert!(output.has_left_block());
    assert!(output.has_second_left_block());
}

#[test]
fn update_overflow_rotates() {
    let mut pool = AudioBlockPool::new();
    let mut output = AudioOutputI2S::new(false);

    let left1 = make_block(&mut pool, 10);
    let left2 = make_block(&mut pool, 20);
    let left3 = make_block(&mut pool, 30);

    output.update(&mut pool, &[Some(left1), None], &mut []);
    output.update(&mut pool, &[Some(left2), None], &mut []);
    output.update(&mut pool, &[Some(left3), None], &mut []);

    assert!(output.has_left_block());
    assert!(output.has_second_left_block());
    assert_eq!(output.left_offset(), 0);
}

#[test]
fn isr_silence_when_no_blocks() {
    let mut pool = AudioBlockPool::new();
    let mut output = AudioOutputI2S::new(true);
    let mut dma_buf = [0xDEAD_BEEFu32; AUDIO_BLOCK_SAMPLES];

    output.isr(&mut pool, &mut dma_buf, DmaHalf::First);

    let half_len = AUDIO_BLOCK_SAMPLES / 2;
    for &sample in &dma_buf[half_len..] {
        assert_eq!(sample, 0, "expected silence in second half");
    }
}

#[test]
fn isr_interleaves_both_channels() {
    let mut pool = AudioBlockPool::new();
    let mut output = AudioOutputI2S::new(false);
    let left = make_block(&mut pool, 100);
    let right = make_block(&mut pool, 200);
    output.update(&mut pool, &[Some(left), Some(right)], &mut []);

    let mut dma_buf = [0u32; AUDIO_BLOCK_SAMPLES];

    output.isr(&mut pool, &mut dma_buf, DmaHalf::First);

    let half_len = AUDIO_BLOCK_SAMPLES / 2;
    for i in half_len..AUDIO_BLOCK_SAMPLES {
        assert_eq!(dma_buf[i] as i16, 100, "left mismatch at {i}");
        assert_eq!((dma_buf[i] >> 16) as i16, 200, "right mismatch at {i}");
    }
}

#[test]
fn isr_left_only_zeroes_right() {
    let mut pool = AudioBlockPool::new();
    let mut output = AudioOutputI2S::new(false);
    let left = make_block(&mut pool, 500);
    output.update(&mut pool, &[Some(left), None], &mut []);

    let mut dma_buf = [0u32; AUDIO_BLOCK_SAMPLES];
    output.isr(&mut pool, &mut dma_buf, DmaHalf::Second);

    let half_len = AUDIO_BLOCK_SAMPLES / 2;
    for i in 0..half_len {
        assert_eq!(dma_buf[i] as i16, 500);
        assert_eq!((dma_buf[i] >> 16) as i16, 0);
    }
}

#[test]
fn isr_rotates_blocks_after_full_consumption() {
    let mut pool = AudioBlockPool::new();
    let mut output = AudioOutputI2S::new(false);
    let left1 = make_block(&mut pool, 10);
    let left2 = make_block(&mut pool, 20);
    output.update(&mut pool, &[Some(left1), None], &mut []);
    output.update(&mut pool, &[Some(left2), None], &mut []);

    let mut dma_buf = [0u32; AUDIO_BLOCK_SAMPLES];

    output.isr(&mut pool, &mut dma_buf, DmaHalf::First);
    assert_eq!(output.left_offset(), AUDIO_BLOCK_SAMPLES / 2);

    output.isr(&mut pool, &mut dma_buf, DmaHalf::Second);
    assert_eq!(output.left_offset(), 0);
    assert!(output.has_left_block());
    assert!(!output.has_second_left_block());
}

#[test]
fn output_i2s_isr_signals_update_correctly() {
    let mut pool = AudioBlockPool::new();
    let mut output_responsible = AudioOutputI2S::new(true);
    let mut output_not = AudioOutputI2S::new(false);
    let mut dma_buf = [0u32; AUDIO_BLOCK_SAMPLES];

    assert!(output_responsible.isr(&mut pool, &mut dma_buf, DmaHalf::First));
    assert!(!output_responsible.isr(&mut pool, &mut dma_buf, DmaHalf::Second));

    assert!(!output_not.isr(&mut pool, &mut dma_buf, DmaHalf::First));
    assert!(!output_not.isr(&mut pool, &mut dma_buf, DmaHalf::Second));
}

#[test]
fn isr_with_ramp_data() {
    let mut pool = AudioBlockPool::new();
    let mut output = AudioOutputI2S::new(false);
    let left = make_ramp_block(&mut pool, 0);
    let right = make_ramp_block(&mut pool, 1000);
    output.update(&mut pool, &[Some(left), Some(right)], &mut []);

    let mut dma_buf = [0u32; AUDIO_BLOCK_SAMPLES];
    let half_len = AUDIO_BLOCK_SAMPLES / 2;

    output.isr(&mut pool, &mut dma_buf, DmaHalf::First);
    for i in 0..half_len {
        let expected_l = i as i16;
        let expected_r = 1000i16.wrapping_add(i as i16);
        assert_eq!(dma_buf[half_len + i] as i16, expected_l);
        assert_eq!((dma_buf[half_len + i] >> 16) as i16, expected_r);
    }

    output.isr(&mut pool, &mut dma_buf, DmaHalf::Second);
    for i in 0..half_len {
        let expected_l = (half_len + i) as i16;
        let expected_r = 1000i16.wrapping_add((half_len + i) as i16);
        assert_eq!(dma_buf[i] as i16, expected_l);
        assert_eq!((dma_buf[i] >> 16) as i16, expected_r);
    }
}

#[test]
fn two_marked_blocks_play_in_order() {
    let mut pool = AudioBlockPool::new();
    let mut output = AudioOutputI2S::new(true);
    let first = make_block(&mut pool, 100);
    let second = make_block(&mut pool, 200);
    feed(&mut output, &mut pool, Some(first), None);
    feed(&mut output, &mut pool, Some(second), None);

    let mut seen = Vec::new();
    for _ in 0..2 {
        let mut dma_buf = [0u32; AUDIO_BLOCK_SAMPLES];
        output.isr(&mut pool, &mut dma_buf, DmaHalf::Second);
        output.isr(&mut pool, &mut dma_buf, DmaHalf::First);
        assert!(dma_buf.iter().all(|&w| w as i16 == dma_buf[0] as i16));
        seen.push(dma_buf[0] as i16);
    }
    assert_eq!(seen, vec![100, 200]);
    assert!(!output.has_left_block());
    assert_eq!(pool.allocated_count(), 0);
}

#[test]
fn played_block_is_released() {
    let mut pool = AudioBlockPool::new();
    let mut output = AudioOutputI2S::new(false);
    let block = make_block(&mut pool, 1);
    feed(&mut output, &mut pool, Some(block), None);
    assert_eq!(pool.allocated_count(), 1);
    let mut dma_buf = [0u32; AUDIO_BLOCK_SAMPLES];
    output.isr(&mut pool, &mut dma_buf, DmaHalf::First);
    assert_eq!(pool.allocated_count(), 1);
    output.isr(&mut pool, &mut dma_buf, DmaHalf::Second);
    assert_eq!(pool.allocated_count(), 0);
}
