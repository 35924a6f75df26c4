//! SGTL5000 register addresses (16-bit registers holding 16-bit values) and I2C addresses.

use vstd::prelude::*;

verus! {

pub const I2C_ADDR_CS_LOW: u8 = 0x0A;

pub const I2C_ADDR_CS_HIGH: u8 = 0x2A;

pub const CHIP_ID: u16 = 0x0000;

pub const CHIP_DIG_POWER: u16 = 0x0002;

pub const CHIP_CLK_CTRL: u16 = 0x0004;

pub const CHIP_PLL_CTRL: u16 = 0x0032;

pub const CHIP_CLK_TOP_CTRL: u16 = 0x0034;

pub const CHIP_I2S_CTRL: u16 = 0x0006;

pub const CHIP_SSS_CTRL: u16 = 0x000A;

pub const CHIP_ADCDAC_CTRL: u16 = 0x000E;

pub const CHIP_DAC_VOL: u16 = 0x0010;

pub const CHIP_PAD_STRENGTH: u16 = 0x0014;

pub const CHIP_ANA_ADC_CTRL: u16 = 0x0020;

pub const CHIP_ANA_HP_CTRL: u16 = 0x0022;

pub const CHIP_ANA_CTRL: u16 = 0x0024;

pub const CHIP_LINREG_CTRL: u16 = 0x0026;

pub const CHIP_REF_CTRL: u16 = 0x0028;

pub const CHIP_MIC_CTRL: u16 = 0x002A;

pub const CHIP_LINE_OUT_CTRL: u16 = 0x002C;

pub const CHIP_LINE_OUT_VOL: u16 = 0x002E;

pub const CHIP_ANA_POWER: u16 = 0x0030;

pub const CHIP_ANA_STATUS: u16 = 0x0036;

pub const CHIP_ANA_TEST1: u16 = 0x0038;

pub const CHIP_ANA_TEST2: u16 = 0x003A;

pub const CHIP_SHORT_CTRL: u16 = 0x003C;

pub const DAP_CONTROL: u16 = 0x0100;

pub const DAP_PEQ: u16 = 0x0102;

pub const DAP_BASS_ENHANCE: u16 = 0x0104;

pub const DAP_BASS_ENHANCE_CTRL: u16 = 0x0106;

pub const DAP_AUDIO_EQ: u16 = 0x0108;

pub const DAP_SGTL_SURROUND: u16 = 0x010A;

pub const DAP_FILTER_COEF_ACCESS: u16 = 0x010C;

pub const DAP_COEF_WR_B0_MSB: u16 = 0x010E;

pub const DAP_COEF_WR_B0_LSB: u16 = 0x0110;

pub const DAP_AUDIO_EQ_BASS_BAND0: u16 = 0x0116;

pub const DAP_AUDIO_EQ_BAND1: u16 = 0x0118;

pub const DAP_AUDIO_EQ_BAND2: u16 = 0x011A;

pub const DAP_AUDIO_EQ_BAND3: u16 = 0x011C;

pub const DAP_AUDIO_EQ_TREBLE_BAND4: u16 = 0x011E;

pub const DAP_MAIN_CHAN: u16 = 0x0120;

pub const DAP_MIX_CHAN: u16 = 0x0122;

pub const DAP_AVC_CTRL: u16 = 0x0124;

pub const DAP_AVC_THRESHOLD: u16 = 0x0126;

pub const DAP_AVC_ATTACK: u16 = 0x0128;

pub const DAP_AVC_DECAY: u16 = 0x012A;

pub const DAP_COEF_WR_B1_MSB: u16 = 0x012C;

pub const DAP_COEF_WR_B1_LSB: u16 = 0x012E;

pub const DAP_COEF_WR_B2_MSB: u16 = 0x0130;

pub const DAP_COEF_WR_B2_LSB: u16 = 0x0132;

pub const DAP_COEF_WR_A1_MSB: u16 = 0x0134;

pub const DAP_COEF_WR_A1_LSB: u16 = 0x0136;

pub const DAP_COEF_WR_A2_MSB: u16 = 0x0138;

pub const DAP_COEF_WR_A2_LSB: u16 = 0x013A;

} // verus!
