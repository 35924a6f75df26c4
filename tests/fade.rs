use teensy_audio::block::{AudioBlockMut, AudioBlockPool};
use teensy_audio::nodes::effect_fade::{fader_lookup, FADER_TABLE_LEN, MAX_FADE};
use teensy_audio::nodes::AudioEffectFade;

/// A raised-sine fade curve, silence to full volume.
fn table() -> [i16; FADER_TABLE_LEN] {
    let mut t = [0i16; FADER_TABLE_LEN];
    for (i, e) in t.iter_mut().enumerate() {
        let s = (std::f64::consts::PI * i as f64 / 512.0).sin();
        *e = (32767.0 * s * s) as i16;
    }
    t
}

/// Samples in `ms` milliseconds, as the millisecond setters count them.
fn samples(ms: u32) -> u32 {
    if ms == 0 { 1 } else { ((ms as f32 * 44_117.647f32) / 1000.0) as u32 }
}

fn alloc_block_with_value(pool: &mut AudioBlockPool, value: i16) -> AudioBlockMut {
    let mut block = AudioBlockMut::allocate(pool).unwrap();
    block.fill(pool, value);
    block
}

fn run(fade: &mut AudioEffectFade, pool: &mut AudioBlockPool, value: i16) -> Option<[i16; 128]> {
    let input = alloc_block_with_value(pool, value).into_shared();
    let output = AudioBlockMut::allocate(pool).unwrap();
    let inputs = [Some(input)];
    let mut outputs = [Some(output)];
    fade.update(pool, &inputs, &mut outputs);
    let r = outputs[0].as_ref().map(|o| o.samples(pool));
    for b in inputs.into_iter().flatten() {
        b.release(pool);
    }
    if let Some(o) = outputs[0].take() {
        o.release(pool);
    }
    r
}

#[test]
fn fade_full_volume_passthrough() {
    let mut pool = AudioBlockPool::new();
    let mut fade = AudioEffectFade::new(table());
    let out = run(&mut fade, &mut pool, 10000).unwrap();
    for &s in out.iter() {
        assert_eq!(s, 10000);
    }
}

#[test]
fn fade_silent_discards() {
    let mut pool = AudioBlockPool::new();
    let mut fade = AudioEffectFade::new_silent(table());
    let input = alloc_block_with_value(&mut pool, 10000).into_shared();
    let output = AudioBlockMut::allocate(&mut pool).unwrap();
    let mut outputs = [Some(output)];
    let inputs = [Some(input)];
    fade.update(&mut pool, &inputs, &mut outputs);
    assert!(outputs[0].is_some());
}

#[test]
fn fade_in_increases_volume() {
    let mut pool = AudioBlockPool::new();
    let mut fade = AudioEffectFade::new_silent(table());
    fade.fade_in_samples(samples(100));
    let out = run(&mut fade, &mut pool, 20000).unwrap();
    assert!(out[127] > out[0], "last should be louder than first: {} vs {}", out[127], out[0]);
}

#[test]
fn fade_out_decreases_volume() {
    let mut pool = AudioBlockPool::new();
    let mut fade = AudioEffectFade::new(table());
    fade.fade_out_samples(samples(100));
    let out = run(&mut fade, &mut pool, 20000).unwrap();
    assert!(out[0] > out[127], "first should be louder than last: {} vs {}", out[0], out[127]);
}

#[test]
fn fader_lookup_endpoints() {
    let t = table();
    assert_eq!(fader_lookup(&t, 0), 0);
    let gain = fader_lookup(&t, MAX_FADE);
    assert!(gain >= 32766, "expected ~32767, got {}", gain);
}

#[test]
fn fade_position_clamps() {
    let mut pool = AudioBlockPool::new();
    let mut fade = AudioEffectFade::new_silent(table());
    fade.fade_in_samples(samples(1));
    for _ in 0..10 {
        run(&mut fade, &mut pool, 10000);
    }
    assert_eq!(fade.position(), MAX_FADE);
    assert_eq!(pool.allocated_count(), 0);
}

#[test]
fn fader_lookup_interpolates_exactly() {
    let mut t = [0i16; FADER_TABLE_LEN];
    t[1] = 1000;
    t[2] = 3000;
    // index 1, halfway to index 2
    assert_eq!(fader_lookup(&t, (1 << 24) | (0x8000 << 8)), 2000);
}

#[test]
fn fade_without_input_still_moves() {
    let mut pool = AudioBlockPool::new();
    let mut fade = AudioEffectFade::new_silent(table());
    fade.fade_in_samples(256);
    fade.update(&mut pool, &[None], &mut [None]);
    assert_eq!(fade.position(), 1 + (MAX_FADE / 256) * 128);
}
