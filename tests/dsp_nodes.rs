use teensy_audio::block::{AudioBlockMut, AudioBlockPool, AudioBlockRef};
use teensy_audio::constants::AUDIO_BLOCK_SAMPLES;
use teensy_audio::dsp::{
    block_accumulate, block_multiply, saturate16, saturating_add_q15, saturating_multiply_q15, signed_saturate_rshift,
};
use teensy_audio::nodes::mixer::{apply_gain, apply_gain_then_add};
use teensy_audio::nodes::synth_dc::magnitude_to_sample;
use teensy_audio::nodes::{AudioAmplifier, AudioAnalyzePeak, AudioAnalyzeRms, AudioMixer, AudioSynthWaveformDc};

fn alloc_block_with(pool: &mut AudioBlockPool, values: &[i16]) -> AudioBlockMut {
    let mut block = AudioBlockMut::allocate(pool).unwrap();
    block.fill(pool, 0);
    for (i, &v) in values.iter().enumerate() {
        if i < AUDIO_BLOCK_SAMPLES {
            block.set(pool, i, v);
        }
    }
    block
}

/// Q16.16 gain for a level, as the floating-point setters compute it.
fn q16(level: f32) -> i32 {
    (level * 65536.0) as i32
}

fn peak_level(peak: &mut AudioAnalyzePeak) -> f32 {
    peak.read_magnitude() as f32 / 32767.0
}

fn rms_level(rms: &mut AudioAnalyzeRms) -> f32 {
    let (sum, num) = rms.read_sums();
    if num == 0 {
        return 0.0;
    }
    (libm::sqrt(sum as f64 / num as f64) / 32767.0) as f32
}

#[test]
fn test_saturating_multiply_q15() {
    assert_eq!(saturating_multiply_q15(32767, 32767), 32766);
    assert_eq!(saturating_multiply_q15(0, 32767), 0);
    assert_eq!(saturating_multiply_q15(-32768, 32767), -32767);
    assert_eq!(saturating_multiply_q15(16384, 16384), 8192);
}

#[test]
fn saturating_multiply_q15_rounds_down_and_saturates() {
    assert_eq!(saturating_multiply_q15(-1, 1), -1);
    assert_eq!(saturating_multiply_q15(-32768, -32768), 32767);
}

#[test]
fn test_saturating_add_q15() {
    assert_eq!(saturating_add_q15(100, 200), 300);
    assert_eq!(saturating_add_q15(32767, 1), 32767);
    assert_eq!(saturating_add_q15(-32768, -1), -32768);
    assert_eq!(saturating_add_q15(32000, 1000), 32767);
}

#[test]
fn test_saturate16() {
    assert_eq!(saturate16(0), 0);
    assert_eq!(saturate16(32767), 32767);
    assert_eq!(saturate16(32768), 32767);
    assert_eq!(saturate16(-32768), -32768);
    assert_eq!(saturate16(-32769), -32768);
    assert_eq!(saturate16(100000), 32767);
    assert_eq!(saturate16(-100000), -32768);
}

#[test]
fn test_block_multiply() {
    let mut block = [0i16; AUDIO_BLOCK_SAMPLES];
    block[0] = 1000;
    block[1] = -1000;
    block[127] = 32767;

    block_multiply(&mut block, 16384);
    assert_eq!(block[0], 500);
    assert_eq!(block[1], -500);
    assert_eq!(block[127], 16383);
}

#[test]
fn test_block_accumulate() {
    let mut dst = [0i16; AUDIO_BLOCK_SAMPLES];
    let mut src = [0i16; AUDIO_BLOCK_SAMPLES];
    dst[0] = 100;
    src[0] = 200;
    dst[1] = 32000;
    src[1] = 1000;

    block_accumulate(&mut dst, &src);
    assert_eq!(dst[0], 300);
    assert_eq!(dst[1], 32767);
}

#[test]
fn apply_gain_exact_values() {
    let mut data = [0i16; AUDIO_BLOCK_SAMPLES];
    data[0] = 10000;
    data[1] = -3;
    data[2] = 30000;
    apply_gain(&mut data, 98304);
    assert_eq!(data[0], 15000);
    assert_eq!(data[1], -5);
    assert_eq!(data[2], 32767);
}

#[test]
fn apply_gain_then_add_exact_values() {
    let mut dst = [0i16; AUDIO_BLOCK_SAMPLES];
    let mut src = [0i16; AUDIO_BLOCK_SAMPLES];
    dst[0] = 100;
    src[0] = 1000;
    dst[1] = -32000;
    src[1] = -2000;
    apply_gain_then_add(&mut dst, &src, 32768);
    assert_eq!(dst[0], 600);
    assert_eq!(dst[1], -32768);
}

#[test]
fn amplifier_unity_gain() {
    let mut pool = AudioBlockPool::new();
    let mut amp = AudioAmplifier::new();
    let input = alloc_block_with(&mut pool, &[1000, -2000, 32767, -32768]).into_shared();
    let output = AudioBlockMut::allocate(&mut pool).unwrap();
    let mut outputs = [Some(output)];
    amp.update(&mut pool, &[Some(input)], &mut outputs);
    let out = outputs[0].as_ref().unwrap();
    assert_eq!(out.get(&pool, 0), 1000);
    assert_eq!(out.get(&pool, 1), -2000);
    assert_eq!(out.get(&pool, 2), 32767);
    assert_eq!(out.get(&pool, 3), -32768);
}

#[test]
fn amplifier_half_gain() {
    let mut pool = AudioBlockPool::new();
    let mut amp = AudioAmplifier::new();
    amp.set_multiplier(q16(0.5));
    let input = alloc_block_with(&mut pool, &[10000, -10000]).into_shared();
    let mut outputs = [Some(AudioBlockMut::allocate(&mut pool).unwrap())];
    amp.update(&mut pool, &[Some(input)], &mut outputs);
    let out = outputs[0].as_ref().unwrap();
    assert!((out.get(&pool, 0) - 5000).abs() <= 1);
    assert!((out.get(&pool, 1) - (-5000)).abs() <= 1);
}

#[test]
fn amplifier_zero_gain_produces_no_output() {
    let mut pool = AudioBlockPool::new();
    let mut amp = AudioAmplifier::new();
    amp.set_multiplier(q16(0.0));
    let input = alloc_block_with(&mut pool, &[1000, 2000]).into_shared();
    let mut outputs = [Some(AudioBlockMut::allocate(&mut pool).unwrap())];
    amp.update(&mut pool, &[Some(input)], &mut outputs);
    assert!(outputs[0].is_none());
    assert_eq!(pool.allocated_count(), 1);
}

#[test]
fn amplifier_boost() {
    let mut pool = AudioBlockPool::new();
    let mut amp = AudioAmplifier::new();
    amp.set_multiplier(q16(2.0));
    let input = alloc_block_with(&mut pool, &[10000, -10000]).into_shared();
    let mut outputs = [Some(AudioBlockMut::allocate(&mut pool).unwrap())];
    amp.update(&mut pool, &[Some(input)], &mut outputs);
    let out = outputs[0].as_ref().unwrap();
    assert!((out.get(&pool, 0) - 20000).abs() <= 1);
    assert!((out.get(&pool, 1) - (-20000)).abs() <= 1);
}

#[test]
fn amplifier_saturation() {
    let mut pool = AudioBlockPool::new();
    let mut amp = AudioAmplifier::new();
    amp.set_multiplier(q16(2.0));
    let input = alloc_block_with(&mut pool, &[20000]).into_shared();
    let mut outputs = [Some(AudioBlockMut::allocate(&mut pool).unwrap())];
    amp.update(&mut pool, &[Some(input)], &mut outputs);
    assert_eq!(outputs[0].as_ref().unwrap().get(&pool, 0), 32767);
}

#[test]
fn amplifier_no_input() {
    let mut pool = AudioBlockPool::new();
    let mut amp = AudioAmplifier::new();
    let mut outputs = [Some(AudioBlockMut::allocate(&mut pool).unwrap())];
    amp.update(&mut pool, &[None], &mut outputs);
    assert!(outputs[0].is_some());
}

#[test]
fn mixer_unity_gain_single_channel() {
    let mut pool = AudioBlockPool::new();
    let mut mixer = AudioMixer::<2>::new();
    let input = alloc_block_with(&mut pool, &[1000, -2000, 32767, -32768]).into_shared();
    let mut outputs = [Some(AudioBlockMut::allocate(&mut pool).unwrap())];
    mixer.update(&mut pool, &[Some(input), None], &mut outputs);
    let out = outputs[0].as_ref().unwrap();
    assert_eq!(out.get(&pool, 0), 1000);
    assert_eq!(out.get(&pool, 1), -2000);
    assert_eq!(out.get(&pool, 2), 32767);
    assert_eq!(out.get(&pool, 3), -32768);
}

#[test]
fn mixer_half_gain() {
    let mut pool = AudioBlockPool::new();
    let mut mixer = AudioMixer::<1>::new();
    mixer.set_multiplier(0, q16(0.5));
    let input = alloc_block_with(&mut pool, &[10000, -10000, 32767]).into_shared();
    let mut outputs = [Some(AudioBlockMut::allocate(&mut pool).unwrap())];
    mixer.update(&mut pool, &[Some(input)], &mut outputs);
    let out = outputs[0].as_ref().unwrap();
    assert!((out.get(&pool, 0) - 5000).abs() <= 1);
    assert!((out.get(&pool, 1) - (-5000)).abs() <= 1);
}

#[test]
fn mixer_two_channels_sum() {
    let mut pool = AudioBlockPool::new();
    let mut mixer = AudioMixer::<2>::new();
    let input0 = alloc_block_with(&mut pool, &[1000, 2000]).into_shared();
    let input1 = alloc_block_with(&mut pool, &[3000, 4000]).into_shared();
    let mut outputs = [Some(AudioBlockMut::allocate(&mut pool).unwrap())];
    mixer.update(&mut pool, &[Some(input0), Some(input1)], &mut outputs);
    let out = outputs[0].as_ref().unwrap();
    assert_eq!(out.get(&pool, 0), 4000);
    assert_eq!(out.get(&pool, 1), 6000);
}

#[test]
fn mixer_saturation() {
    let mut pool = AudioBlockPool::new();
    let mut mixer = AudioMixer::<2>::new();
    let input0 = alloc_block_with(&mut pool, &[30000]).into_shared();
    let input1 = alloc_block_with(&mut pool, &[30000]).into_shared();
    let mut outputs = [Some(AudioBlockMut::allocate(&mut pool).unwrap())];
    mixer.update(&mut pool, &[Some(input0), Some(input1)], &mut outputs);
    assert_eq!(outputs[0].as_ref().unwrap().get(&pool, 0), 32767);
}

#[test]
fn mixer_no_inputs_produces_silence() {
    let mut pool = AudioBlockPool::new();
    let mut mixer = AudioMixer::<2>::new();
    let mut output = AudioBlockMut::allocate(&mut pool).unwrap();
    output.fill(&mut pool, 1234);
    let mut outputs = [Some(output)];
    mixer.update(&mut pool, &[None, None], &mut outputs);
    for s in outputs[0].as_ref().unwrap().samples(&pool) {
        assert_eq!(s, 0);
    }
}

#[test]
fn mixer_gain_out_of_range_ignored() {
    let mut mixer = AudioMixer::<2>::new();
    mixer.set_multiplier(5, q16(1.0));
}

#[test]
fn mixer_const_generic_8() {
    let mut pool = AudioBlockPool::new();
    let mut mixer = AudioMixer::<8>::new();
    mixer.set_multiplier(7, q16(0.5));
    let input = alloc_block_with(&mut pool, &[20000]).into_shared();
    let mut inputs: Vec<Option<AudioBlockRef>> = (0..8).map(|_| None).collect();
    inputs[7] = Some(input);
    let mut outputs = [Some(AudioBlockMut::allocate(&mut pool).unwrap())];
    mixer.update(&mut pool, &inputs, &mut outputs);
    assert!((outputs[0].as_ref().unwrap().get(&pool, 0) - 10000).abs() <= 1);
}

#[test]
fn peak_no_data() {
    let peak = AudioAnalyzePeak::new();
    assert!(!peak.available());
}

#[test]
fn peak_detects_positive() {
    let mut pool = AudioBlockPool::new();
    let mut peak = AudioAnalyzePeak::new();
    let mut input = alloc_block_with(&mut pool, &[]);
    input.set(&mut pool, 50, 16384);
    let inputs = [Some(input.into_shared())];
    peak.update(&mut pool, &inputs, &mut []);
    assert!(peak.available());
    let level = peak_level(&mut peak);
    assert!((level - 0.5).abs() < 0.01, "expected ~0.5, got {}", level);
    assert!(!peak.available());
}

#[test]
fn peak_detects_negative() {
    let mut pool = AudioBlockPool::new();
    let mut peak = AudioAnalyzePeak::new();
    let mut input = alloc_block_with(&mut pool, &[]);
    input.set(&mut pool, 10, -24576);
    let inputs = [Some(input.into_shared())];
    peak.update(&mut pool, &inputs, &mut []);
    let level = peak_level(&mut peak);
    assert!((level - 0.75).abs() < 0.01, "expected ~0.75, got {}", level);
}

#[test]
fn peak_to_peak() {
    let mut pool = AudioBlockPool::new();
    let mut peak = AudioAnalyzePeak::new();
    let input = alloc_block_with(&mut pool, &[16384, -16384]);
    let inputs = [Some(input.into_shared())];
    peak.update(&mut pool, &inputs, &mut []);
    let pp = peak.read_span() as f32 / 32767.0;
    assert!((pp - 1.0).abs() < 0.01, "expected ~1.0, got {}", pp);
}

#[test]
fn peak_accumulates_across_blocks() {
    let mut pool = AudioBlockPool::new();
    let mut peak = AudioAnalyzePeak::new();
    let input1 = alloc_block_with(&mut pool, &[10000]);
    peak.update(&mut pool, &[Some(input1.into_shared())], &mut []);
    let input2 = alloc_block_with(&mut pool, &[20000]);
    peak.update(&mut pool, &[Some(input2.into_shared())], &mut []);
    let level = peak_level(&mut peak);
    let expected = 20000.0 / 32767.0;
    assert!((level - expected).abs() < 0.01, "expected ~{}, got {}", expected, level);
}

#[test]
fn peak_read_resets() {
    let mut pool = AudioBlockPool::new();
    let mut peak = AudioAnalyzePeak::new();
    let input = alloc_block_with(&mut pool, &[30000]);
    peak.update(&mut pool, &[Some(input.into_shared())], &mut []);
    let _ = peak.read_magnitude();
    assert!(!peak.available());
}

#[test]
fn peak_magnitude_of_most_negative_sample() {
    let mut pool = AudioBlockPool::new();
    let mut peak = AudioAnalyzePeak::new();
    let input = alloc_block_with(&mut pool, &[-32768, 5]);
    peak.update(&mut pool, &[Some(input.into_shared())], &mut []);
    assert_eq!(peak.read_magnitude(), 32768);
}

#[test]
fn rms_no_data() {
    let mut rms = AudioAnalyzeRms::new();
    assert!(!rms.available());
    assert_eq!(rms_level(&mut rms), 0.0);
}

#[test]
fn rms_silence() {
    let mut pool = AudioBlockPool::new();
    let mut rms = AudioAnalyzeRms::new();
    let block = alloc_block_with(&mut pool, &[]);
    rms.update(&mut pool, &[Some(block.into_shared())], &mut []);
    assert!(rms.available());
    assert_eq!(rms_level(&mut rms), 0.0);
}

#[test]
fn rms_full_scale_dc() {
    let mut pool = AudioBlockPool::new();
    let mut rms = AudioAnalyzeRms::new();
    let mut block = AudioBlockMut::allocate(&mut pool).unwrap();
    block.fill(&mut pool, 32767);
    rms.update(&mut pool, &[Some(block.into_shared())], &mut []);
    let level = rms_level(&mut rms);
    assert!((level - 1.0).abs() < 0.001, "expected ~1.0, got {}", level);
}

#[test]
fn rms_half_scale_dc() {
    let mut pool = AudioBlockPool::new();
    let mut rms = AudioAnalyzeRms::new();
    let mut block = AudioBlockMut::allocate(&mut pool).unwrap();
    block.fill(&mut pool, 16384);
    rms.update(&mut pool, &[Some(block.into_shared())], &mut []);
    let level = rms_level(&mut rms);
    let expected = 16384.0 / 32767.0;
    assert!((level - expected).abs() < 0.01, "expected ~{}, got {}", expected, level);
}

#[test]
fn rms_accumulates_across_blocks() {
    let mut pool = AudioBlockPool::new();
    let mut rms = AudioAnalyzeRms::new();
    for _ in 0..2 {
        let mut block = AudioBlockMut::allocate(&mut pool).unwrap();
        block.fill(&mut pool, 16384);
        rms.update(&mut pool, &[Some(block.into_shared())], &mut []);
    }
    let level = rms_level(&mut rms);
    let expected = 16384.0 / 32767.0;
    assert!((level - expected).abs() < 0.01, "expected ~{}, got {}", expected, level);
}

#[test]
fn rms_read_resets() {
    let mut pool = AudioBlockPool::new();
    let mut rms = AudioAnalyzeRms::new();
    let mut block = AudioBlockMut::allocate(&mut pool).unwrap();
    block.fill(&mut pool, 32767);
    rms.update(&mut pool, &[Some(block.into_shared())], &mut []);
    let _ = rms_level(&mut rms);
    assert!(!rms.available());
    assert_eq!(rms_level(&mut rms), 0.0);
}

#[test]
fn rms_no_input_counts_silence() {
    let mut pool = AudioBlockPool::new();
    let mut rms = AudioAnalyzeRms::new();
    rms.update(&mut pool, &[None], &mut []);
    assert!(rms.available());
    assert_eq!(rms.read_sums(), (0, 128));
}

#[test]
fn rms_sums_exact() {
    let mut pool = AudioBlockPool::new();
    let mut rms = AudioAnalyzeRms::new();
    let block = alloc_block_with(&mut pool, &[3, -4]);
    rms.update(&mut pool, &[Some(block.into_shared())], &mut []);
    assert_eq!(rms.read_sums(), (25, 128));
}

#[test]
fn dc_zero_output() {
    let mut pool = AudioBlockPool::new();
    let mut dc = AudioSynthWaveformDc::new();
    let mut output = AudioBlockMut::allocate(&mut pool).unwrap();
    output.fill(&mut pool, 7);
    let mut outputs = [Some(output)];
    dc.update(&mut pool, &[], &mut outputs);
    for s in outputs[0].as_ref().unwrap().samples(&pool) {
        assert_eq!(s, 0);
    }
}

#[test]
fn dc_positive_level() {
    let mut pool = AudioBlockPool::new();
    let mut dc = AudioSynthWaveformDc::new();
    dc.set_magnitude((1.0f32 * 2_147_418_112.0) as i32);
    let mut outputs = [Some(AudioBlockMut::allocate(&mut pool).unwrap())];
    dc.update(&mut pool, &[], &mut outputs);
    for s in outputs[0].as_ref().unwrap().samples(&pool) {
        assert_eq!(s, 32767);
    }
}

#[test]
fn dc_negative_level() {
    let mut pool = AudioBlockPool::new();
    let mut dc = AudioSynthWaveformDc::new();
    dc.set_magnitude((-1.0f32 * 2_147_418_112.0) as i32);
    let mut outputs = [Some(AudioBlockMut::allocate(&mut pool).unwrap())];
    dc.update(&mut pool, &[], &mut outputs);
    for s in outputs[0].as_ref().unwrap().samples(&pool) {
        assert_eq!(s, -32767);
    }
}

#[test]
fn dc_ramp_reaches_target_and_holds() {
    let mut pool = AudioBlockPool::new();
    let mut dc = AudioSynthWaveformDc::new();
    dc.ramp_to(64 * 65536, 64);
    let mut outputs = [Some(AudioBlockMut::allocate(&mut pool).unwrap())];
    dc.update(&mut pool, &[], &mut outputs);
    let s = outputs[0].as_ref().unwrap().samples(&pool);
    assert_eq!(s[0], 1);
    assert_eq!(s[62], 63);
    assert_eq!(s[63], 64);
    assert_eq!(s[127], 64);
}

#[test]
fn magnitude_to_sample_floors() {
    assert_eq!(magnitude_to_sample(65536 * 3 + 5), 3);
    assert_eq!(magnitude_to_sample(-1), -1);
    assert_eq!(magnitude_to_sample(i32::MIN), -32768);
}

#[test]
fn test_signed_saturate_rshift() {
    assert_eq!(signed_saturate_rshift::<8, 1>(100), 50);
    assert_eq!(signed_saturate_rshift::<8, 2>(1000), 127);
    assert_eq!(signed_saturate_rshift::<8, 2>(-1000), -128);
    assert_eq!(signed_saturate_rshift::<16, 0>(256), 256);
}

#[test]
fn dc_half_level() {
    let mut pool = AudioBlockPool::new();
    let mut dc = AudioSynthWaveformDc::new();
    dc.set_magnitude((0.5f32 * 2_147_418_112.0) as i32);
    let mut outputs = [Some(AudioBlockMut::allocate(&mut pool).unwrap())];
    dc.update(&mut pool, &[], &mut outputs);
    let out = outputs[0].as_ref().unwrap().samples(&pool);
    assert!((out[0] - 16383).abs() <= 1, "expected ~16383, got {}", out[0]);
}

#[test]
fn dc_ramp() {
    let mut pool = AudioBlockPool::new();
    let mut dc = AudioSynthWaveformDc::new();
    dc.set_magnitude(0);
    let samples = (100.0f32 * 44_117.647 / 1000.0) as i32;
    dc.ramp_to((1.0f32 * 2_147_418_112.0) as i32, samples);
    let mut outputs = [Some(AudioBlockMut::allocate(&mut pool).unwrap())];
    dc.update(&mut pool, &[], &mut outputs);
    let out = outputs[0].as_ref().unwrap().samples(&pool);
    assert!(out[0].abs() < 2000, "first sample should be small, got {}", out[0]);
    assert!(out[127] > out[0], "last sample should be > first");
    for i in 1..AUDIO_BLOCK_SAMPLES {
        assert!(out[i] >= out[i - 1], "not monotonic at {}: {} < {}", i, out[i], out[i - 1]);
    }
}
