use std::collections::HashMap;

use teensy_audio::codec::registers::{
    CHIP_ADCDAC_CTRL, CHIP_ANA_ADC_CTRL, CHIP_ANA_CTRL, CHIP_ANA_HP_CTRL, CHIP_ANA_POWER, CHIP_CLK_CTRL,
    CHIP_DIG_POWER, CHIP_I2S_CTRL, CHIP_LINE_OUT_VOL, CHIP_LINREG_CTRL, CHIP_MIC_CTRL, CHIP_PLL_CTRL,
    CHIP_SSS_CTRL, DAP_AUDIO_EQ, DAP_CONTROL, DAP_FILTER_COEF_ACCESS, DAP_PEQ, I2C_ADDR_CS_HIGH,
};
use teensy_audio::codec::sgtl5000::{modified, register_bytes, register_value, write_bytes};
use teensy_audio::codec::{CodecOp, HeadphoneSource, Input, Sgtl5000};

/// A register file that carries out planned operations, as the codec would.
struct Chip {
    regs: HashMap<u16, u16>,
    log: Vec<(u16, u16)>,
}

impl Chip {
    fn new() -> Self {
        Chip { regs: HashMap::new(), log: Vec::new() }
    }

    fn read_reg(&self, register: u16) -> u16 {
        *self.regs.get(&register).unwrap_or(&0)
    }

    fn run(&mut self, ops: Vec<CodecOp>) {
        for op in ops {
            match op {
                CodecOp::Write(r, v) => {
                    self.regs.insert(r, v);
                    self.log.push((r, v));
                }
                CodecOp::Modify(r, v, m) => {
                    let nv = modified(self.read_reg(r), v, m);
                    self.regs.insert(r, nv);
                    self.log.push((r, nv));
                }
                CodecOp::DelayMs(_) => {}
            }
        }
    }
}

fn enabled_codec() -> (Sgtl5000, Chip) {
    let mut codec = Sgtl5000::new();
    let mut chip = Chip::new();
    chip.run(codec.enable());
    (codec, chip)
}

#[test]
fn enable_writes_correct_sequence() {
    let (_codec, chip) = enabled_codec();
    assert_eq!(chip.log.len(), 16);
    assert_eq!(chip.log[0], (CHIP_ANA_POWER, 0x4060));
    assert_eq!(chip.log[1], (CHIP_LINREG_CTRL, 0x006C));
    assert_eq!(chip.log[5], (CHIP_ANA_CTRL, 0x0137));
    assert_eq!(chip.log[6], (CHIP_ANA_POWER, 0x40FF));
    assert_eq!(chip.log[7], (CHIP_DIG_POWER, 0x0073));
    assert_eq!(chip.log[8], (CHIP_LINE_OUT_VOL, 0x1D1D));
    assert_eq!(chip.log[9], (CHIP_CLK_CTRL, 0x0004));
    assert_eq!(chip.log[10], (CHIP_I2S_CTRL, 0x0030));
    assert_eq!(chip.log[14], (CHIP_ANA_HP_CTRL, 0x7F7F));
    assert_eq!(chip.log[15], (CHIP_ANA_CTRL, 0x0036));
}

#[test]
fn enable_waits_for_power_ramp() {
    let mut codec = Sgtl5000::new();
    let ops = codec.enable();
    assert_eq!(ops[0], CodecOp::DelayMs(5));
    assert_eq!(ops[9], CodecOp::DelayMs(400));
}

#[test]
fn enable_caches_ana_ctrl() {
    let (codec, _chip) = enabled_codec();
    assert_eq!(codec.ana_ctrl(), 0x0036);
    assert!(codec.is_semi_automated());
}

#[test]
fn volume_zero_mutes() {
    let (mut codec, mut chip) = enabled_codec();
    chip.run(codec.volume_integer((0.0f32 * 129.0 + 0.499) as u32));
    assert!(codec.is_muted());
    assert_eq!(chip.read_reg(CHIP_ANA_HP_CTRL), 0x7F7F);
}

#[test]
fn volume_full_scale() {
    let (mut codec, mut chip) = enabled_codec();
    chip.run(codec.volume_integer((1.0f32 * 129.0 + 0.499) as u32));
    assert!(!codec.is_muted());
    assert_eq!(chip.read_reg(CHIP_ANA_HP_CTRL), 0x0000);
}

#[test]
fn volume_mid_range() {
    let (mut codec, mut chip) = enabled_codec();
    chip.run(codec.volume_integer((0.5f32 * 129.0 + 0.499) as u32));
    assert_eq!(chip.read_reg(CHIP_ANA_HP_CTRL), 0x4040);
}

#[test]
fn volume_auto_unmutes() {
    let (mut codec, mut chip) = enabled_codec();
    assert!(codec.is_muted());
    chip.run(codec.volume_integer((0.7f32 * 129.0 + 0.499) as u32));
    assert!(!codec.is_muted());
    assert_eq!(chip.read_reg(CHIP_ANA_CTRL) & (1 << 4), 0);
}

#[test]
fn volume_lr_independent_channels() {
    let (mut codec, mut chip) = enabled_codec();
    chip.run(codec.volume_lr_codes(0x7F, 0x00));
    let hp = chip.read_reg(CHIP_ANA_HP_CTRL);
    assert_eq!(hp & 0x7F, 0x00);
    assert_eq!((hp >> 8) & 0x7F, 0x7F);
}

#[test]
fn mute_unmute_headphone() {
    let (mut codec, mut chip) = enabled_codec();
    chip.run(codec.unmute_headphone());
    assert_eq!(codec.ana_ctrl(), 0x0026);
    chip.run(codec.mute_headphone());
    assert_eq!(codec.ana_ctrl(), 0x0036);
    assert_eq!(chip.read_reg(CHIP_ANA_CTRL), 0x0036);
}

#[test]
fn mute_unmute_lineout() {
    let (mut codec, mut chip) = enabled_codec();
    chip.run(codec.mute_lineout());
    assert_eq!(codec.ana_ctrl() & (1 << 8), 1 << 8);
    chip.run(codec.unmute_lineout());
    assert_eq!(codec.ana_ctrl() & (1 << 8), 0);
}

#[test]
fn input_select_linein() {
    let (mut codec, mut chip) = enabled_codec();
    chip.run(codec.input_select(Input::LineIn));
    assert_eq!(chip.read_reg(CHIP_ANA_ADC_CTRL), 0x055);
    assert_ne!(chip.read_reg(CHIP_ANA_CTRL) & (1 << 2), 0);
}

#[test]
fn input_select_mic() {
    let (mut codec, mut chip) = enabled_codec();
    chip.run(codec.input_select(Input::Mic));
    assert_eq!(chip.read_reg(CHIP_MIC_CTRL), 0x0173);
    assert_eq!(chip.read_reg(CHIP_ANA_ADC_CTRL), 0x088);
    assert_eq!(chip.read_reg(CHIP_ANA_CTRL) & (1 << 2), 0);
}

#[test]
fn headphone_select_toggles_bit() {
    let (mut codec, mut chip) = enabled_codec();
    chip.run(codec.headphone_select(HeadphoneSource::Dac));
    assert_ne!(codec.ana_ctrl() & (1 << 6), 0);
    chip.run(codec.headphone_select(HeadphoneSource::LineIn));
    assert_eq!(codec.ana_ctrl() & (1 << 6), 0);
}

#[test]
fn line_in_level_clamps_to_15() {
    let (mut codec, mut chip) = enabled_codec();
    chip.run(codec.line_in_level(20, 20));
    assert_eq!(chip.read_reg(CHIP_ANA_ADC_CTRL), 0xFF);
}

#[test]
fn line_out_level_clamps_range() {
    let (mut codec, mut chip) = enabled_codec();
    chip.run(codec.line_out_level(5, 40));
    let vol = chip.read_reg(CHIP_LINE_OUT_VOL);
    assert_eq!(vol & 0x1F, 13);
    assert_eq!((vol >> 8) & 0x1F, 31);
}

#[test]
fn mic_gain_40db() {
    let (mut codec, mut chip) = enabled_codec();
    chip.run(codec.mic_gain(40));
    assert_eq!(chip.read_reg(CHIP_MIC_CTRL), 0x0170 | 3);
    assert_eq!(chip.read_reg(CHIP_ANA_ADC_CTRL), 0x000);
}

#[test]
fn mic_gain_63db() {
    let (mut codec, mut chip) = enabled_codec();
    chip.run(codec.mic_gain(63));
    assert_eq!(chip.read_reg(CHIP_MIC_CTRL), 0x0170 | 3);
    assert_eq!(chip.read_reg(CHIP_ANA_ADC_CTRL), (15 << 4) | 15);
}

#[test]
fn mic_gain_25db() {
    let (mut codec, mut chip) = enabled_codec();
    chip.run(codec.mic_gain(25));
    assert_eq!(chip.read_reg(CHIP_MIC_CTRL), 0x0170 | 1);
    assert_eq!(chip.read_reg(CHIP_ANA_ADC_CTRL), (3 << 4) | 3);
}

#[test]
fn dac_volume_ramp_modes() {
    let (mut codec, mut chip) = enabled_codec();
    chip.run(codec.dac_volume_ramp());
    assert_eq!(chip.read_reg(CHIP_ADCDAC_CTRL) & 0x300, 0x300);

    let (mut codec, mut chip) = enabled_codec();
    chip.run(codec.dac_volume_ramp_linear());
    assert_eq!(chip.read_reg(CHIP_ADCDAC_CTRL) & 0x300, 0x200);

    let (mut codec, mut chip) = enabled_codec();
    chip.run(codec.dac_volume_ramp_disable());
    assert_eq!(chip.read_reg(CHIP_ADCDAC_CTRL) & 0x300, 0x000);
}

#[test]
fn modify_preserves_unmasked_bits() {
    let (mut codec, mut chip) = enabled_codec();
    chip.run(codec.dac_volume_ramp());
    chip.run(codec.adc_high_pass_filter_disable());
    let val = chip.read_reg(CHIP_ADCDAC_CTRL);
    assert_eq!(val & 0x300, 0x300);
    assert_eq!(val & 0x3, 1);
}

#[test]
fn audio_processor_routing() {
    let (mut codec, mut chip) = enabled_codec();
    chip.run(codec.audio_pre_processor_enable());
    assert_eq!(chip.read_reg(DAP_CONTROL), 1);
    assert_eq!(chip.read_reg(CHIP_SSS_CTRL), 0x0013);

    let (mut codec, mut chip) = enabled_codec();
    chip.run(codec.audio_post_processor_enable());
    assert_eq!(chip.read_reg(DAP_CONTROL), 1);
    assert_eq!(chip.read_reg(CHIP_SSS_CTRL), 0x0070);

    let (mut codec, mut chip) = enabled_codec();
    chip.run(codec.audio_post_processor_enable());
    chip.run(codec.audio_processor_disable());
    assert_eq!(chip.read_reg(DAP_CONTROL), 0);
    assert_eq!(chip.read_reg(CHIP_SSS_CTRL), 0x0010);
}

#[test]
fn custom_address() {
    let codec = Sgtl5000::new_with_address(0x2A);
    assert_eq!(codec.address(), I2C_ADDR_CS_HIGH);
}

#[test]
fn release_returns_peripherals() {
    let codec = Sgtl5000::new();
    assert!(codec.is_muted());
    assert!(!codec.is_semi_automated());
}

#[test]
fn register_bytes_are_big_endian() {
    assert_eq!(write_bytes(0x0124, 0xBEEF), [0x01, 0x24, 0xBE, 0xEF]);
    assert_eq!(register_bytes(0x0124), [0x01, 0x24]);
    assert_eq!(register_value([0xBE, 0xEF]), 0xBEEF);
}

#[test]
fn pll_setup_and_recovery() {
    let mut codec = Sgtl5000::new();
    let ops = codec.enable_with_pll(0, 12_000_000, 180_633_600);
    assert!(ops.contains(&CodecOp::Write(CHIP_PLL_CTRL, (15 << 11) | 108)));
    assert!(ops.contains(&CodecOp::Write(CHIP_I2S_CTRL, 0x00B0)));
    let mut again = Sgtl5000::new();
    assert!(again.enable_with_pll(0x00B0, 12_000_000, 180_633_600).is_empty());
    assert!(!again.is_muted());
}

#[test]
fn eq_filter_selects_parametric_mode_first() {
    let (mut codec, mut chip) = enabled_codec();
    let ops = codec.eq_filter(2, &[0x12345, -17, 0, 1, 16], 0, 0);
    assert_eq!(ops[0], CodecOp::Modify(DAP_AUDIO_EQ, 1, 3));
    assert_eq!(ops[1], CodecOp::Modify(DAP_PEQ, 3, 7));
    chip.run(ops);
    assert_eq!(chip.read_reg(DAP_FILTER_COEF_ACCESS), 0x102);
    codec.kill_automation();
    let ops = codec.eq_filter(0, &[0; 5], 0, 0);
    assert_eq!(ops[0], CodecOp::Modify(DAP_FILTER_COEF_ACCESS, 0, 15));
}
