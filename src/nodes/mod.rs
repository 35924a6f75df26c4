pub mod amplifier;
pub mod analyze_peak;
pub mod analyze_rms;
pub mod mixer;

pub use amplifier::AudioAmplifier;
pub use analyze_peak::AudioAnalyzePeak;
pub use analyze_rms::AudioAnalyzeRms;
pub use mixer::AudioMixer;
pub mod synth_dc;

pub use synth_dc::AudioSynthWaveformDc;
pub mod effect_envelope;

pub use effect_envelope::{AudioEffectEnvelope, EnvelopeState};
pub mod effect_fade;

pub use effect_fade::AudioEffectFade;
pub mod synth_sine;

pub use synth_sine::AudioSynthSine;
