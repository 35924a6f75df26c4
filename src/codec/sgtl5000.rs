use vstd::prelude::*;

use crate::codec::registers::{
    CHIP_ADCDAC_CTRL, CHIP_ANA_ADC_CTRL, CHIP_ANA_CTRL, CHIP_ANA_HP_CTRL, CHIP_ANA_POWER, CHIP_CLK_CTRL, CHIP_CLK_TOP_CTRL, CHIP_DAC_VOL, CHIP_DIG_POWER, CHIP_I2S_CTRL, CHIP_LINE_OUT_CTRL, CHIP_LINE_OUT_VOL, CHIP_LINREG_CTRL, CHIP_MIC_CTRL, CHIP_PLL_CTRL, CHIP_REF_CTRL, CHIP_SHORT_CTRL, CHIP_SSS_CTRL, DAP_AUDIO_EQ, DAP_AUDIO_EQ_BASS_BAND0, DAP_BASS_ENHANCE, DAP_BASS_ENHANCE_CTRL, DAP_COEF_WR_A1_LSB, DAP_COEF_WR_A1_MSB, DAP_COEF_WR_A2_LSB, DAP_COEF_WR_A2_MSB, DAP_COEF_WR_B0_LSB, DAP_COEF_WR_B0_MSB, DAP_COEF_WR_B1_LSB, DAP_COEF_WR_B1_MSB, DAP_COEF_WR_B2_LSB, DAP_COEF_WR_B2_MSB, DAP_CONTROL, DAP_FILTER_COEF_ACCESS, DAP_PEQ, DAP_SGTL_SURROUND, I2C_ADDR_CS_LOW,
};

verus! {

/// One step of a codec command, carried out over I2C by the caller.
#[derive(Clone, Copy, Debug, PartialEq, Eq, Structural)]
pub enum CodecOp {
    /// Write `(register, value)`.
    Write(u16, u16),
    /// Read `register`, then write back `modified(current, value, mask)`:
    /// `(register, value, mask)`.
    Modify(u16, u16, u16),
    /// Wait this many milliseconds.
    DelayMs(u32),
}

/// ADC input selection.
#[derive(Clone, Copy, Debug, PartialEq, Eq, Structural)]
pub enum Input {
    /// Stereo line in.
    LineIn,
    /// Microphone.
    Mic,
}

/// Headphone routing source.
#[derive(Clone, Copy, Debug, PartialEq, Eq, Structural)]
pub enum HeadphoneSource {
    /// The DAC.
    Dac,
    /// Line in, bypassing the DAC.
    LineIn,
}

/// Equalizer mode of the digital audio processor.
#[derive(Clone, Copy, Debug, PartialEq, Eq, Structural)]
pub enum EqMode {
    /// No equalizer.
    Off,
    /// Seven-band parametric equalizer.
    ParametricEq,
    /// Bass and treble tone controls.
    ToneControls,
    /// Five-band graphic equalizer.
    GraphicEq,
}

/// Register code of an equalizer mode.
pub open spec fn eq_code(mode: EqMode) -> u16 {
    match mode {
        EqMode::Off => 0,
        EqMode::ParametricEq => 1,
        EqMode::ToneControls => 2,
        EqMode::GraphicEq => 3,
    }
}

/// Value written back by a read-modify-write: the bits of `mask` taken from `value`
/// (as given), the others from `current`.
pub fn modified(current: u16, value: u16, mask: u16) -> (r: u16)
    ensures
        r == (current & !mask) | value,
{
    (current & !mask) | value
}

/// The four bytes of a register write, big-endian: register, then value.
pub fn write_bytes(register: u16, value: u16) -> (r: [u8; 4])
    ensures
        r@ == seq![(register >> 8u16) as u8, register as u8, (value >> 8u16) as u8, value as u8],
{
    let r = [(register >> 8u16) as u8, register as u8, (value >> 8u16) as u8, value as u8];
    assert(r@ =~= seq![(register >> 8u16) as u8, register as u8, (value >> 8u16) as u8, value as u8]);
    r
}

/// The two address bytes of a register read, big-endian.
pub fn register_bytes(register: u16) -> (r: [u8; 2])
    ensures
        r@ == seq![(register >> 8u16) as u8, register as u8],
{
    let r = [(register >> 8u16) as u8, register as u8];
    assert(r@ =~= seq![(register >> 8u16) as u8, register as u8]);
    r
}

/// The register value carried by the two bytes of a read, big-endian.
pub fn register_value(bytes: [u8; 2]) -> (r: u16)
    ensures
        r == ((bytes@[0] as u16) << 8u16) | (bytes@[1] as u16),
{
    ((bytes[0] as u16) << 8u16) | (bytes[1] as u16)
}

/// The PLL control word for an external clock `ext_mclk` and a PLL frequency `pll_freq`:
/// the integer ratio (5 bits) above the fraction in 2048ths (11 bits).
pub open spec fn pll_word(ext_mclk: u32, pll_freq: u32) -> u16 {
    let int_div = ((pll_freq / ext_mclk) & 0x1Fu32) as int;
    let frac = (((pll_freq as int * 2048) / ext_mclk as int - int_div * 2048) % 2048) as int;
    (int_div * 2048 + frac) as u16
}

/// State of the SGTL5000 codec driver: its I2C address, the last value written to the
/// analog control register, and the muting and equalizer automation flags.
///
/// Every command returns the register operations that carry it out, in order.
pub struct Sgtl5000 {
    address: u8,
    ana_ctrl: u16,
    muted: bool,
    semi_automated: bool,
}

impl Sgtl5000 {
    /// I2C address of the codec.
    pub closed spec fn addr(&self) -> u8 {
        self.address
    }

    /// Last value written to the analog control register.
    pub closed spec fn ana(&self) -> u16 {
        self.ana_ctrl
    }

    /// Whether the headphone output is muted.
    pub closed spec fn hp_muted(&self) -> bool {
        self.muted
    }

    /// Whether the driver selects equalizer modes by itself.
    pub closed spec fn automated(&self) -> bool {
        self.semi_automated
    }

    /// A driver for the codec at the default address (CTRL_ADR0_CS low).
    pub fn new() -> (r: Self)
        ensures
            r.addr() == I2C_ADDR_CS_LOW,
            r.ana() == 0,
            r.hp_muted(),
            !r.automated(),
    {
        Sgtl5000 { address: I2C_ADDR_CS_LOW, ana_ctrl: 0, muted: true, semi_automated: false }
    }

    /// A driver for the codec at `address`.
    pub fn new_with_address(address: u8) -> (r: Self)
        ensures
            r.addr() == address,
            r.ana() == 0,
            r.hp_muted(),
            !r.automated(),
    {
        Sgtl5000 { address, ana_ctrl: 0, muted: true, semi_automated: false }
    }

    /// I2C address of the codec.
    pub fn address(&self) -> (r: u8)
        ensures
            r == self.addr(),
    {
        self.address
    }

    /// Last value written to the analog control register.
    pub fn ana_ctrl(&self) -> (r: u16)
        ensures
            r == self.ana(),
    {
        self.ana_ctrl
    }

    /// Whether the headphone output is muted.
    pub fn is_muted(&self) -> (r: bool)
        ensures
            r == self.hp_muted(),
    {
        self.muted
    }

    /// Whether the driver selects equalizer modes by itself.
    pub fn is_semi_automated(&self) -> (r: bool)
        ensures
            r == self.automated(),
    {
        self.semi_automated
    }

    /// Write a register, keeping the analog control cache up to date.
    pub fn write_register(&mut self, register: u16, value: u16) -> (r: CodecOp)
        ensures
            r == CodecOp::Write(register, value),
            final(self).ana() == if register == CHIP_ANA_CTRL {
                value
            } else {
                old(self).ana()
            },
            final(self).addr() == old(self).addr(),
            final(self).hp_muted() == old(self).hp_muted(),
            final(self).automated() == old(self).automated(),
    {
        if register == CHIP_ANA_CTRL {
            self.ana_ctrl = value;
        }
        CodecOp::Write(register, value)
    }

    /// Power-on sequence for I2S slave mode at 44.1 kHz: analog and digital power, clocks
    /// (256 x Fs), 16-bit I2S, ADC to I2S and I2S to DAC routing, headphones at minimum
    /// volume and muted, with a 400 ms wait for the analog supply to ramp.
    pub fn enable(&mut self) -> (r: Vec<CodecOp>)
        ensures
            r@ == seq![
                CodecOp::DelayMs(5),
                CodecOp::Write(CHIP_ANA_POWER, 0x4060),
                CodecOp::Write(CHIP_LINREG_CTRL, 0x006C),
                CodecOp::Write(CHIP_REF_CTRL, 0x01F2),
                CodecOp::Write(CHIP_LINE_OUT_CTRL, 0x0F22),
                CodecOp::Write(CHIP_SHORT_CTRL, 0x4446),
                CodecOp::Write(CHIP_ANA_CTRL, 0x0137),
                CodecOp::Write(CHIP_ANA_POWER, 0x40FF),
                CodecOp::Write(CHIP_DIG_POWER, 0x0073),
                CodecOp::DelayMs(400),
                CodecOp::Write(CHIP_LINE_OUT_VOL, 0x1D1D),
                CodecOp::Write(CHIP_CLK_CTRL, 0x0004),
                CodecOp::Write(CHIP_I2S_CTRL, 0x0030),
                CodecOp::Write(CHIP_SSS_CTRL, 0x0010),
                CodecOp::Write(CHIP_ADCDAC_CTRL, 0x0000),
                CodecOp::Write(CHIP_DAC_VOL, 0x3C3C),
                CodecOp::Write(CHIP_ANA_HP_CTRL, 0x7F7F),
                CodecOp::Write(CHIP_ANA_CTRL, 0x0036),
            ],
            final(self).ana() == 0x0036,
            final(self).hp_muted(),
            final(self).automated(),
            final(self).addr() == old(self).addr(),
    {
        let mut r: Vec<CodecOp> = Vec::new();
        r.push(CodecOp::DelayMs(5));
        self.muted = true;
        r.push(self.write_register(CHIP_ANA_POWER, 0x4060));
        r.push(self.write_register(CHIP_LINREG_CTRL, 0x006C));
        r.push(self.write_register(CHIP_REF_CTRL, 0x01F2));
        r.push(self.write_register(CHIP_LINE_OUT_CTRL, 0x0F22));
        r.push(self.write_register(CHIP_SHORT_CTRL, 0x4446));
        r.push(self.write_register(CHIP_ANA_CTRL, 0x0137));
        r.push(self.write_register(CHIP_ANA_POWER, 0x40FF));
        r.push(self.write_register(CHIP_DIG_POWER, 0x0073));
        r.push(CodecOp::DelayMs(400));
        r.push(self.write_register(CHIP_LINE_OUT_VOL, 0x1D1D));
        r.push(self.write_register(CHIP_CLK_CTRL, 0x0004));
        r.push(self.write_register(CHIP_I2S_CTRL, 0x0030));
        r.push(self.write_register(CHIP_SSS_CTRL, 0x0010));
        r.push(self.write_register(CHIP_ADCDAC_CTRL, 0x0000));
        r.push(self.write_register(CHIP_DAC_VOL, 0x3C3C));
        r.push(self.write_register(CHIP_ANA_HP_CTRL, 0x7F7F));
        r.push(self.write_register(CHIP_ANA_CTRL, 0x0036));
        self.semi_automated = true;
        assert(r@ =~= seq![
            CodecOp::DelayMs(5),
            CodecOp::Write(CHIP_ANA_POWER, 0x4060),
            CodecOp::Write(CHIP_LINREG_CTRL, 0x006C),
            CodecOp::Write(CHIP_REF_CTRL, 0x01F2),
            CodecOp::Write(CHIP_LINE_OUT_CTRL, 0x0F22),
            CodecOp::Write(CHIP_SHORT_CTRL, 0x4446),
            CodecOp::Write(CHIP_ANA_CTRL, 0x0137),
            CodecOp::Write(CHIP_ANA_POWER, 0x40FF),
            CodecOp::Write(CHIP_DIG_POWER, 0x0073),
            CodecOp::DelayMs(400),
            CodecOp::Write(CHIP_LINE_OUT_VOL, 0x1D1D),
            CodecOp::Write(CHIP_CLK_CTRL, 0x0004),
            CodecOp::Write(CHIP_I2S_CTRL, 0x0030),
            CodecOp::Write(CHIP_SSS_CTRL, 0x0010),
            CodecOp::Write(CHIP_ADCDAC_CTRL, 0x0000),
            CodecOp::Write(CHIP_DAC_VOL, 0x3C3C),
            CodecOp::Write(CHIP_ANA_HP_CTRL, 0x7F7F),
            CodecOp::Write(CHIP_ANA_CTRL, 0x0036),
        ]);
        r
    }

    /// Power-on with an external clock and the codec's PLL (I2S master mode), given the
    /// I2S control register as read after a 5 ms wait. A codec already running as master
    /// (value `0x00B0`) is left as it is, unmuted. `ext_mclk` above 17 MHz is divided by two.
    pub fn enable_with_pll(&mut self, i2s_ctrl: u16, ext_mclk: u32, pll_freq: u32) -> (r: Vec<
        CodecOp,
    >)
        requires
            ext_mclk > 0,
        ensures
            final(self).automated(),
            final(self).addr() == old(self).addr(),
            i2s_ctrl == 0x00B0 ==> r@.len() == 0 && !final(self).hp_muted() && final(self).ana()
                == old(self).ana(),
            i2s_ctrl != 0x00B0 ==> final(self).hp_muted() && final(self).ana() == 0x0036 && r@
                == seq![
                CodecOp::Write(CHIP_ANA_POWER, 0x4060),
                CodecOp::Write(CHIP_LINREG_CTRL, 0x006C),
                CodecOp::Write(CHIP_REF_CTRL, 0x01F2),
                CodecOp::Write(CHIP_LINE_OUT_CTRL, 0x0F22),
                CodecOp::Write(CHIP_SHORT_CTRL, 0x4446),
                CodecOp::Write(CHIP_ANA_CTRL, 0x0137),
                CodecOp::Write(CHIP_CLK_TOP_CTRL, if ext_mclk > 17_000_000 { 1 } else { 0 }),
                CodecOp::Write(CHIP_PLL_CTRL, pll_word(ext_mclk, pll_freq)),
                CodecOp::Write(CHIP_ANA_POWER, 0x45FF),
                CodecOp::Write(CHIP_DIG_POWER, 0x0073),
                CodecOp::DelayMs(400),
                CodecOp::Write(CHIP_LINE_OUT_VOL, 0x1D1D),
                CodecOp::Write(CHIP_CLK_CTRL, 0x0007),
                CodecOp::Write(CHIP_I2S_CTRL, 0x00B0),
                CodecOp::Write(CHIP_SSS_CTRL, 0x0010),
                CodecOp::Write(CHIP_ADCDAC_CTRL, 0x0000),
                CodecOp::Write(CHIP_DAC_VOL, 0x3C3C),
                CodecOp::Write(CHIP_ANA_HP_CTRL, 0x7F7F),
                CodecOp::Write(CHIP_ANA_CTRL, 0x0036),
            ],
    {
        let mut r: Vec<CodecOp> = Vec::new();
        if i2s_ctrl == 0x00B0 {
            self.muted = false;
            self.semi_automated = true;
            return r;
        }
        self.muted = true;
        r.push(self.write_register(CHIP_ANA_POWER, 0x4060));
        r.push(self.write_register(CHIP_LINREG_CTRL, 0x006C));
        r.push(self.write_register(CHIP_REF_CTRL, 0x01F2));
        r.push(self.write_register(CHIP_LINE_OUT_CTRL, 0x0F22));
        r.push(self.write_register(CHIP_SHORT_CTRL, 0x4446));
        r.push(self.write_register(CHIP_ANA_CTRL, 0x0137));
        if ext_mclk > 17_000_000 {
            r.push(self.write_register(CHIP_CLK_TOP_CTRL, 1));
        } else {
            r.push(self.write_register(CHIP_CLK_TOP_CTRL, 0));
        }
        let ratio = pll_freq / ext_mclk;
        let int_div = ratio & 0x1F;
        let scaled: u64 = (pll_freq as u64 * 2048) / ext_mclk as u64;
        proof {
            assert(int_div <= 31 && int_div <= ratio) by (bit_vector)
                requires
                    int_div == ratio & 0x1Fu32,
            ;
            assert((pll_freq as int / ext_mclk as int) * 2048 <= (pll_freq as int * 2048) / ext_mclk as int)
                by (nonlinear_arith)
                requires
                    ext_mclk > 0,
            ;
            assert(pll_freq as int * 2048 <= 0xFFFF_FFFF * 2048);
        }
        let frac = ((scaled - int_div as u64 * 2048) % 2048) as u32;
        let word = (int_div * 2048 + frac) as u16;
        assert(word == pll_word(ext_mclk, pll_freq));
        r.push(self.write_register(CHIP_PLL_CTRL, word));
        r.push(self.write_register(CHIP_ANA_POWER, 0x45FF));
        r.push(self.write_register(CHIP_DIG_POWER, 0x0073));
        r.push(CodecOp::DelayMs(400));
        r.push(self.write_register(CHIP_LINE_OUT_VOL, 0x1D1D));
        r.push(self.write_register(CHIP_CLK_CTRL, 0x0007));
        r.push(self.write_register(CHIP_I2S_CTRL, 0x00B0));
        r.push(self.write_register(CHIP_SSS_CTRL, 0x0010));
        r.push(self.write_register(CHIP_ADCDAC_CTRL, 0x0000));
        r.push(self.write_register(CHIP_DAC_VOL, 0x3C3C));
        r.push(self.write_register(CHIP_ANA_HP_CTRL, 0x7F7F));
        r.push(self.write_register(CHIP_ANA_CTRL, 0x0036));
        self.semi_automated = true;
        assert(r@ =~= seq![
            CodecOp::Write(CHIP_ANA_POWER, 0x4060),
            CodecOp::Write(CHIP_LINREG_CTRL, 0x006C),
            CodecOp::Write(CHIP_REF_CTRL, 0x01F2),
            CodecOp::Write(CHIP_LINE_OUT_CTRL, 0x0F22),
            CodecOp::Write(CHIP_SHORT_CTRL, 0x4446),
            CodecOp::Write(CHIP_ANA_CTRL, 0x0137),
            CodecOp::Write(CHIP_CLK_TOP_CTRL, if ext_mclk > 17_000_000 { 1 } else { 0 }),
            CodecOp::Write(CHIP_PLL_CTRL, pll_word(ext_mclk, pll_freq)),
            CodecOp::Write(CHIP_ANA_POWER, 0x45FF),
            CodecOp::Write(CHIP_DIG_POWER, 0x0073),
            CodecOp::DelayMs(400),
            CodecOp::Write(CHIP_LINE_OUT_VOL, 0x1D1D),
            CodecOp::Write(CHIP_CLK_CTRL, 0x0007),
            CodecOp::Write(CHIP_I2S_CTRL, 0x00B0),
            CodecOp::Write(CHIP_SSS_CTRL, 0x0010),
            CodecOp::Write(CHIP_ADCDAC_CTRL, 0x0000),
            CodecOp::Write(CHIP_DAC_VOL, 0x3C3C),
            CodecOp::Write(CHIP_ANA_HP_CTRL, 0x7F7F),
            CodecOp::Write(CHIP_ANA_CTRL, 0x0036),
        ]);
        r
    }

    /// Power down: nothing to do.
    pub fn disable(&mut self) -> (r: Vec<CodecOp>)
        ensures
            r@.len() == 0,
            *final(self) == *old(self),
    {
        Vec::new()
    }

    fn set_ana(&mut self, value: u16) -> (r: CodecOp)
        ensures
            r == CodecOp::Write(CHIP_ANA_CTRL, value),
            final(self).ana() == value,
            final(self).addr() == old(self).addr(),
            final(self).hp_muted() == old(self).hp_muted(),
            final(self).automated() == old(self).automated(),
    {
        self.write_register(CHIP_ANA_CTRL, value)
    }

    /// Mute the headphone output (MUTE_HP, bit 4 of the analog control register).
    pub fn mute_headphone(&mut self) -> (r: Vec<CodecOp>)
        ensures
            r@ == seq![CodecOp::Write(CHIP_ANA_CTRL, old(self).ana() | 0x0010)],
            final(self).ana() == old(self).ana() | 0x0010,
            final(self).addr() == old(self).addr(),
            final(self).hp_muted() == old(self).hp_muted(),
            final(self).automated() == old(self).automated(),
    {
        let v = self.ana_ctrl | 0x0010;
        let mut r: Vec<CodecOp> = Vec::new();
        r.push(self.set_ana(v));
        assert(r@ =~= seq![CodecOp::Write(CHIP_ANA_CTRL, old(self).ana() | 0x0010)]);
        r
    }

    /// Unmute the headphone output.
    pub fn unmute_headphone(&mut self) -> (r: Vec<CodecOp>)
        ensures
            r@ == seq![CodecOp::Write(CHIP_ANA_CTRL, old(self).ana() & 0xFFEF)],
            final(self).ana() == old(self).ana() & 0xFFEF,
            final(self).addr() == old(self).addr(),
            final(self).hp_muted() == old(self).hp_muted(),
            final(self).automated() == old(self).automated(),
    {
        let v = self.ana_ctrl & 0xFFEF;
        let mut r: Vec<CodecOp> = Vec::new();
        r.push(self.set_ana(v));
        assert(r@ =~= seq![CodecOp::Write(CHIP_ANA_CTRL, old(self).ana() & 0xFFEF)]);
        r
    }

    /// Mute the line output (MUTE_LO, bit 8 of the analog control register).
    pub fn mute_lineout(&mut self) -> (r: Vec<CodecOp>)
        ensures
            r@ == seq![CodecOp::Write(CHIP_ANA_CTRL, old(self).ana() | 0x0100)],
            final(self).ana() == old(self).ana() | 0x0100,
            final(self).addr() == old(self).addr(),
            final(self).hp_muted() == old(self).hp_muted(),
            final(self).automated() == old(self).automated(),
    {
        let v = self.ana_ctrl | 0x0100;
        let mut r: Vec<CodecOp> = Vec::new();
        r.push(self.set_ana(v));
        assert(r@ =~= seq![CodecOp::Write(CHIP_ANA_CTRL, old(self).ana() | 0x0100)]);
        r
    }

    /// Unmute the line output.
    pub fn unmute_lineout(&mut self) -> (r: Vec<CodecOp>)
        ensures
            r@ == seq![CodecOp::Write(CHIP_ANA_CTRL, old(self).ana() & 0xFEFF)],
            final(self).ana() == old(self).ana() & 0xFEFF,
            final(self).addr() == old(self).addr(),
            final(self).hp_muted() == old(self).hp_muted(),
            final(self).automated() == old(self).automated(),
    {
        let v = self.ana_ctrl & 0xFEFF;
        let mut r: Vec<CodecOp> = Vec::new();
        r.push(self.set_ana(v));
        assert(r@ =~= seq![CodecOp::Write(CHIP_ANA_CTRL, old(self).ana() & 0xFEFF)]);
        r
    }

    /// Headphone volume on the scale 0 (muted) to 129 and above (maximum, +12 dB). Zero
    /// mutes the output at minimum volume; any other level unmutes a muted output first.
    /// The register holds `0x80 - n` (0 for n above 0x80) for both channels.
    pub fn volume_integer(&mut self, n: u32) -> (r: Vec<CodecOp>)
        ensures
            final(self).addr() == old(self).addr(),
            final(self).automated() == old(self).automated(),
            n == 0 ==> {
                &&& final(self).hp_muted()
                &&& final(self).ana() == old(self).ana() | 0x0010
                &&& r@ == seq![
                    CodecOp::Write(CHIP_ANA_HP_CTRL, 0x7F7F),
                    CodecOp::Write(CHIP_ANA_CTRL, old(self).ana() | 0x0010),
                ]
            },
            n != 0 ==> {
                let m = (if n > 0x80 { 0 } else { 0x80 - n }) as u16;
                let set = CodecOp::Write(CHIP_ANA_HP_CTRL, m | (m << 8u16));
                &&& !final(self).hp_muted()
                &&& old(self).hp_muted() ==> final(self).ana() == old(self).ana() & 0xFFEF && r@
                    == seq![CodecOp::Write(CHIP_ANA_CTRL, old(self).ana() & 0xFFEF), set]
                &&& !old(self).hp_muted() ==> final(self).ana() == old(self).ana() && r@ == seq![set]
            },
    {
        let mut r: Vec<CodecOp> = Vec::new();
        if n == 0 {
            self.muted = true;
            r.push(self.write_register(CHIP_ANA_HP_CTRL, 0x7F7F));
            let v = self.ana_ctrl | 0x0010;
            r.push(self.set_ana(v));
            assert(r@ =~= seq![
                CodecOp::Write(CHIP_ANA_HP_CTRL, 0x7F7F),
                CodecOp::Write(CHIP_ANA_CTRL, old(self).ana() | 0x0010),
            ]);
            return r;
        }
        let m: u16 = if n > 0x80 { 0 } else { (0x80 - n) as u16 };
        let was_muted = self.muted;
        if self.muted {
            self.muted = false;
            let v = self.ana_ctrl & 0xFFEF;
            r.push(self.set_ana(v));
        }
        r.push(self.write_register(CHIP_ANA_HP_CTRL, m | (m << 8u16)));
        if was_muted {
            assert(r@ =~= seq![
                CodecOp::Write(CHIP_ANA_CTRL, old(self).ana() & 0xFFEF),
                CodecOp::Write(CHIP_ANA_HP_CTRL, m | (m << 8u16)),
            ]);
        } else {
            assert(r@ =~= seq![CodecOp::Write(CHIP_ANA_HP_CTRL, m | (m << 8u16))]);
        }
        r
    }

    /// Headphone volume per channel as attenuation codes already scaled to 0..=0x7F
    /// (larger is louder); codes above 0x7F count as 0x7F.
    pub fn volume_lr_codes(&mut self, left: u8, right: u8) -> (r: Vec<CodecOp>)
        ensures
            ({
                let l = if left > 0x7F { 0x7Fu8 } else { left };
                let rt = if right > 0x7F { 0x7Fu8 } else { right };
                r@ == seq![
                    CodecOp::Write(
                        CHIP_ANA_HP_CTRL,
                        (((0x7F - rt) as u16) << 8u16) | ((0x7F - l) as u16),
                    ),
                ]
            }),
            *final(self) == *old(self),
    {
        let l: u8 = if left > 0x7F { 0x7F } else { left };
        let rt: u8 = if right > 0x7F { 0x7F } else { right };
        let v = (((0x7F - rt) as u16) << 8u16) | ((0x7F - l) as u16);
        let mut r: Vec<CodecOp> = Vec::new();
        r.push(CodecOp::Write(CHIP_ANA_HP_CTRL, v));
        assert(r@ =~= seq![CodecOp::Write(CHIP_ANA_HP_CTRL, v)]);
        r
    }

    /// Select the ADC input: line in at +7.5 dB, or the microphone with a +40 dB preamp
    /// and +12 dB of input gain (SELECT_ADC, bit 2 of the analog control register).
    pub fn input_select(&mut self, input: Input) -> (r: Vec<CodecOp>)
        ensures
            final(self).addr() == old(self).addr(),
            final(self).hp_muted() == old(self).hp_muted(),
            final(self).automated() == old(self).automated(),
            input == Input::LineIn ==> final(self).ana() == old(self).ana() | 0x0004 && r@ == seq![
                CodecOp::Write(CHIP_ANA_ADC_CTRL, 0x055),
                CodecOp::Write(CHIP_ANA_CTRL, old(self).ana() | 0x0004),
            ],
            input == Input::Mic ==> final(self).ana() == old(self).ana() & 0xFFFB && r@ == seq![
                CodecOp::Write(CHIP_MIC_CTRL, 0x0173),
                CodecOp::Write(CHIP_ANA_ADC_CTRL, 0x088),
                CodecOp::Write(CHIP_ANA_CTRL, old(self).ana() & 0xFFFB),
            ],
    {
        let mut r: Vec<CodecOp> = Vec::new();
        match input {
            Input::LineIn => {
                r.push(self.write_register(CHIP_ANA_ADC_CTRL, 0x055));
                let v = self.ana_ctrl | 0x0004;
                r.push(self.set_ana(v));
                assert(r@ =~= seq![
                    CodecOp::Write(CHIP_ANA_ADC_CTRL, 0x055),
                    CodecOp::Write(CHIP_ANA_CTRL, old(self).ana() | 0x0004),
                ]);
            },
            Input::Mic => {
                r.push(self.write_register(CHIP_MIC_CTRL, 0x0173));
                r.push(self.write_register(CHIP_ANA_ADC_CTRL, 0x088));
                let v = self.ana_ctrl & 0xFFFB;
                r.push(self.set_ana(v));
                assert(r@ =~= seq![
                    CodecOp::Write(CHIP_MIC_CTRL, 0x0173),
                    CodecOp::Write(CHIP_ANA_ADC_CTRL, 0x088),
                    CodecOp::Write(CHIP_ANA_CTRL, old(self).ana() & 0xFFFB),
                ]);
            },
        }
        r
    }

    /// Select the headphone source (SELECT_HP, bit 6 of the analog control register).
    pub fn headphone_select(&mut self, source: HeadphoneSource) -> (r: Vec<CodecOp>)
        ensures
            final(self).addr() == old(self).addr(),
            final(self).hp_muted() == old(self).hp_muted(),
            final(self).automated() == old(self).automated(),
            final(self).ana() == if source == HeadphoneSource::Dac {
                old(self).ana() | 0x0040
            } else {
                old(self).ana() & 0xFFBF
            },
            r@ == seq![CodecOp::Write(CHIP_ANA_CTRL, final(self).ana())],
    {
        let v = match source {
            HeadphoneSource::Dac => self.ana_ctrl | 0x0040,
            HeadphoneSource::LineIn => self.ana_ctrl & 0xFFBF,
        };
        let mut r: Vec<CodecOp> = Vec::new();
        r.push(self.set_ana(v));
        assert(r@ =~= seq![CodecOp::Write(CHIP_ANA_CTRL, v)]);
        r
    }

    /// Line-in level per channel, 0 to 15 in 1.5 dB steps (larger values count as 15).
    pub fn line_in_level(&mut self, left: u8, right: u8) -> (r: Vec<CodecOp>)
        ensures
            ({
                let l = if left > 15 { 15u8 } else { left };
                let rt = if right > 15 { 15u8 } else { right };
                r@ == seq![CodecOp::Write(CHIP_ANA_ADC_CTRL, ((l as u16) << 4u16) | (rt as u16))]
            }),
            *final(self) == *old(self),
    {
        let l: u8 = if left > 15 { 15 } else { left };
        let rt: u8 = if right > 15 { 15 } else { right };
        let mut r: Vec<CodecOp> = Vec::new();
        r.push(CodecOp::Write(CHIP_ANA_ADC_CTRL, ((l as u16) << 4u16) | (rt as u16)));
        assert(r@ =~= seq![CodecOp::Write(CHIP_ANA_ADC_CTRL, ((l as u16) << 4u16) | (rt as u16))]);
        r
    }

    /// Line-out level per channel, clamped to 13..=31 (0.5 dB steps; lower values clip).
    pub fn line_out_level(&mut self, left: u8, right: u8) -> (r: Vec<CodecOp>)
        ensures
            ({
                let l = if left < 13 { 13u8 } else if left > 31 { 31u8 } else { left };
                let rt = if right < 13 { 13u8 } else if right > 31 { 31u8 } else { right };
                r@ == seq![
                    CodecOp::Modify(CHIP_LINE_OUT_VOL, ((rt as u16) << 8u16) | (l as u16), 0x1F1F),
                ]
            }),
            *final(self) == *old(self),
    {
        let l: u8 = if left < 13 { 13 } else if left > 31 { 31 } else { left };
        let rt: u8 = if right < 13 { 13 } else if right > 31 { 31 } else { right };
        let v = ((rt as u16) << 8u16) | (l as u16);
        let mut r: Vec<CodecOp> = Vec::new();
        r.push(CodecOp::Modify(CHIP_LINE_OUT_VOL, v, 0x1F1F));
        assert(r@ =~= seq![CodecOp::Modify(CHIP_LINE_OUT_VOL, v, 0x1F1F)]);
        r
    }

    /// Microphone gain in dB, split between the preamp (0, 20, 30 or 40 dB) and the ADC
    /// input gain (1.5 dB steps, at most 15 steps) for the rest.
    pub fn mic_gain(&mut self, db: u32) -> (r: Vec<CodecOp>)
        ensures
            ({
                let (pre, base) = if db >= 40 {
                    (3u16, 40int)
                } else if db >= 30 {
                    (2u16, 30int)
                } else if db >= 20 {
                    (1u16, 20int)
                } else {
                    (0u16, 0int)
                };
                let steps = (db - base) * 2 / 3;
                let g = (if steps > 15 { 15 } else { steps }) as u16;
                r@ == seq![
                    CodecOp::Write(CHIP_MIC_CTRL, 0x0170 | pre),
                    CodecOp::Write(CHIP_ANA_ADC_CTRL, (g << 4u16) | g),
                ]
            }),
            *final(self) == *old(self),
    {
        let (pre, remaining): (u16, u32) = if db >= 40 {
            (3, db - 40)
        } else if db >= 30 {
            (2, db - 30)
        } else if db >= 20 {
            (1, db - 20)
        } else {
            (0, db)
        };
        let steps: u64 = (remaining as u64 * 2) / 3;
        let g: u16 = if steps > 15 { 15 } else { steps as u16 };
        let mut r: Vec<CodecOp> = Vec::new();
        r.push(CodecOp::Write(CHIP_MIC_CTRL, 0x0170 | pre));
        r.push(CodecOp::Write(CHIP_ANA_ADC_CTRL, (g << 4u16) | g));
        assert(r@ =~= seq![
            CodecOp::Write(CHIP_MIC_CTRL, 0x0170 | pre),
            CodecOp::Write(CHIP_ANA_ADC_CTRL, (g << 4u16) | g),
        ]);
        r
    }

    /// DAC digital volume per channel as codes already scaled to 0..=0xC0 (larger is
    /// louder; above 0xC0 counts as 0xC0), with a channel whose level is not positive
    /// muted. `adcdac_ctrl` is the ADC/DAC control register as read now: its mute bits
    /// are rewritten only when they change.
    pub fn dac_volume_codes(
        &mut self,
        left: u8,
        right: u8,
        left_on: bool,
        right_on: bool,
        adcdac_ctrl: u16,
    ) -> (r: Vec<CodecOp>)
        ensures
            ({
                let mute = ((if right_on { 0u16 } else { 2u16 }) | (if left_on { 0u16 } else { 1u16 }))
                    << 2u16;
                let l = if left > 0xC0 { 0xC0u8 } else { left };
                let rt = if right > 0xC0 { 0xC0u8 } else { right };
                let vol = CodecOp::Modify(
                    CHIP_DAC_VOL,
                    (((0xFC - rt) as u16) << 8u16) | ((0xFC - l) as u16),
                    0xFFFF,
                );
                if adcdac_ctrl & 0x000C != mute {
                    r@ == seq![CodecOp::Modify(CHIP_ADCDAC_CTRL, mute, 0x000C), vol]
                } else {
                    r@ == seq![vol]
                }
            }),
            *final(self) == *old(self),
    {
        let mute: u16 = ((if right_on { 0u16 } else { 2u16 }) | (if left_on { 0u16 } else { 1u16 }))
            << 2u16;
        let l: u8 = if left > 0xC0 { 0xC0 } else { left };
        let rt: u8 = if right > 0xC0 { 0xC0 } else { right };
        let vol = CodecOp::Modify(
            CHIP_DAC_VOL,
            (((0xFC - rt) as u16) << 8u16) | ((0xFC - l) as u16),
            0xFFFF,
        );
        let mut r: Vec<CodecOp> = Vec::new();
        if adcdac_ctrl & 0x000C != mute {
            r.push(CodecOp::Modify(CHIP_ADCDAC_CTRL, mute, 0x000C));
        }
        r.push(vol);
        if adcdac_ctrl & 0x000C != mute {
            assert(r@ =~= seq![CodecOp::Modify(CHIP_ADCDAC_CTRL, mute, 0x000C), vol]);
        } else {
            assert(r@ =~= seq![vol]);
        }
        r
    }

    /// Exponential DAC volume ramp (bits 9:8 of the ADC/DAC control register set to 3).
    pub fn dac_volume_ramp(&mut self) -> (r: Vec<CodecOp>)
        ensures
            r@ == seq![CodecOp::Modify(CHIP_ADCDAC_CTRL, 0x300, 0x300)],
            *final(self) == *old(self),
    {
        let mut r: Vec<CodecOp> = Vec::new();
        r.push(CodecOp::Modify(CHIP_ADCDAC_CTRL, 0x300, 0x300));
        assert(r@ =~= seq![CodecOp::Modify(CHIP_ADCDAC_CTRL, 0x300, 0x300)]);
        r
    }

    /// Linear DAC volume ramp (bits 9:8 set to 2).
    pub fn dac_volume_ramp_linear(&mut self) -> (r: Vec<CodecOp>)
        ensures
            r@ == seq![CodecOp::Modify(CHIP_ADCDAC_CTRL, 0x200, 0x300)],
            *final(self) == *old(self),
    {
        let mut r: Vec<CodecOp> = Vec::new();
        r.push(CodecOp::Modify(CHIP_ADCDAC_CTRL, 0x200, 0x300));
        assert(r@ =~= seq![CodecOp::Modify(CHIP_ADCDAC_CTRL, 0x200, 0x300)]);
        r
    }

    /// No DAC volume ramp (bits 9:8 cleared).
    pub fn dac_volume_ramp_disable(&mut self) -> (r: Vec<CodecOp>)
        ensures
            r@ == seq![CodecOp::Modify(CHIP_ADCDAC_CTRL, 0, 0x300)],
            *final(self) == *old(self),
    {
        let mut r: Vec<CodecOp> = Vec::new();
        r.push(CodecOp::Modify(CHIP_ADCDAC_CTRL, 0, 0x300));
        assert(r@ =~= seq![CodecOp::Modify(CHIP_ADCDAC_CTRL, 0, 0x300)]);
        r
    }

    /// ADC high-pass filter in normal operation (bits 1:0 cleared).
    pub fn adc_high_pass_filter_enable(&mut self) -> (r: Vec<CodecOp>)
        ensures
            r@ == seq![CodecOp::Modify(CHIP_ADCDAC_CTRL, 0, 3)],
            *final(self) == *old(self),
    {
        let mut r: Vec<CodecOp> = Vec::new();
        r.push(CodecOp::Modify(CHIP_ADCDAC_CTRL, 0, 3));
        assert(r@ =~= seq![CodecOp::Modify(CHIP_ADCDAC_CTRL, 0, 3)]);
        r
    }

    /// ADC high-pass filter offset frozen (bits 1:0 set to 2).
    pub fn adc_high_pass_filter_freeze(&mut self) -> (r: Vec<CodecOp>)
        ensures
            r@ == seq![CodecOp::Modify(CHIP_ADCDAC_CTRL, 2, 3)],
            *final(self) == *old(self),
    {
        let mut r: Vec<CodecOp> = Vec::new();
        r.push(CodecOp::Modify(CHIP_ADCDAC_CTRL, 2, 3));
        assert(r@ =~= seq![CodecOp::Modify(CHIP_ADCDAC_CTRL, 2, 3)]);
        r
    }

    /// ADC high-pass filter bypassed (bits 1:0 set to 1).
    pub fn adc_high_pass_filter_disable(&mut self) -> (r: Vec<CodecOp>)
        ensures
            r@ == seq![CodecOp::Modify(CHIP_ADCDAC_CTRL, 1, 3)],
            *final(self) == *old(self),
    {
        let mut r: Vec<CodecOp> = Vec::new();
        r.push(CodecOp::Modify(CHIP_ADCDAC_CTRL, 1, 3));
        assert(r@ =~= seq![CodecOp::Modify(CHIP_ADCDAC_CTRL, 1, 3)]);
        r
    }

    /// Route the analog input through the audio processor to the I2S output.
    pub fn audio_pre_processor_enable(&mut self) -> (r: Vec<CodecOp>)
        ensures
            r@ == seq![CodecOp::Write(DAP_CONTROL, 1), CodecOp::Write(CHIP_SSS_CTRL, 0x0013)],
            *final(self) == *old(self),
    {
        let mut r: Vec<CodecOp> = Vec::new();
        r.push(CodecOp::Write(DAP_CONTROL, 1));
        r.push(CodecOp::Write(CHIP_SSS_CTRL, 0x0013));
        assert(r@ =~= seq![CodecOp::Write(DAP_CONTROL, 1), CodecOp::Write(CHIP_SSS_CTRL, 0x0013)]);
        r
    }

    /// Route the I2S input through the audio processor to the outputs.
    pub fn audio_post_processor_enable(&mut self) -> (r: Vec<CodecOp>)
        ensures
            r@ == seq![CodecOp::Write(DAP_CONTROL, 1), CodecOp::Write(CHIP_SSS_CTRL, 0x0070)],
            *final(self) == *old(self),
    {
        let mut r: Vec<CodecOp> = Vec::new();
        r.push(CodecOp::Write(DAP_CONTROL, 1));
        r.push(CodecOp::Write(CHIP_SSS_CTRL, 0x0070));
        assert(r@ =~= seq![CodecOp::Write(DAP_CONTROL, 1), CodecOp::Write(CHIP_SSS_CTRL, 0x0070)]);
        r
    }

    /// Disable the audio processor and restore the default routing.
    pub fn audio_processor_disable(&mut self) -> (r: Vec<CodecOp>)
        ensures
            r@ == seq![CodecOp::Write(CHIP_SSS_CTRL, 0x0010), CodecOp::Write(DAP_CONTROL, 0)],
            *final(self) == *old(self),
    {
        let mut r: Vec<CodecOp> = Vec::new();
        r.push(CodecOp::Write(CHIP_SSS_CTRL, 0x0010));
        r.push(CodecOp::Write(DAP_CONTROL, 0));
        assert(r@ =~= seq![CodecOp::Write(CHIP_SSS_CTRL, 0x0010), CodecOp::Write(DAP_CONTROL, 0)]);
        r
    }

    /// Number of active parametric filters (the low three bits of `n`).
    pub fn eq_filter_count(&mut self, n: u8) -> (r: Vec<CodecOp>)
        ensures
            r@ == seq![CodecOp::Modify(DAP_PEQ, (n & 7) as u16, 7)],
            *final(self) == *old(self),
    {
        let mut r: Vec<CodecOp> = Vec::new();
        r.push(CodecOp::Modify(DAP_PEQ, (n & 7) as u16, 7));
        assert(r@ =~= seq![CodecOp::Modify(DAP_PEQ, (n & 7) as u16, 7)]);
        r
    }

    /// Select the equalizer mode.
    pub fn eq_select(&mut self, mode: EqMode) -> (r: Vec<CodecOp>)
        ensures
            r@ == seq![CodecOp::Modify(DAP_AUDIO_EQ, eq_code(mode), 3)],
            *final(self) == *old(self),
    {
        let code: u16 = match mode {
            EqMode::Off => 0,
            EqMode::ParametricEq => 1,
            EqMode::ToneControls => 2,
            EqMode::GraphicEq => 3,
        };
        let mut r: Vec<CodecOp> = Vec::new();
        r.push(CodecOp::Modify(DAP_AUDIO_EQ, code, 3));
        assert(r@ =~= seq![CodecOp::Modify(DAP_AUDIO_EQ, eq_code(mode), 3)]);
        r
    }

    /// Select equalizer mode `eq` (0 off, 1 parametric, 2 tone controls, 3 and above
    /// graphic) unless `audio_eq`, the mode register as read now, already holds it.
    pub fn automate(&mut self, eq: u8, audio_eq: u16) -> (r: Vec<CodecOp>)
        ensures
            (audio_eq & 3) == eq as u16 ==> r@.len() == 0,
            (audio_eq & 3) != eq as u16 ==> r@ == seq![
                CodecOp::Modify(DAP_AUDIO_EQ, if eq >= 3 { 3 } else { eq as u16 }, 3),
            ],
            *final(self) == *old(self),
    {
        if (audio_eq & 3) == eq as u16 {
            return Vec::new();
        }
        let mode = if eq == 0 {
            EqMode::Off
        } else if eq == 1 {
            EqMode::ParametricEq
        } else if eq == 2 {
            EqMode::ToneControls
        } else {
            EqMode::GraphicEq
        };
        self.eq_select(mode)
    }

    /// `automate`, then raise the parametric filter count to `filter_count` when `peq`,
    /// the filter-count register as read now, holds fewer.
    pub fn automate_with_filter_count(&mut self, eq: u8, filter_count: u8, audio_eq: u16, peq: u16) -> (r: Vec<
        CodecOp,
    >)
        ensures
            ({
                let first = if (audio_eq & 3) == eq as u16 {
                    Seq::<CodecOp>::empty()
                } else {
                    seq![CodecOp::Modify(DAP_AUDIO_EQ, if eq >= 3 { 3 } else { eq as u16 }, 3)]
                };
                if (filter_count as u16) > (peq & 7) {
                    r@ == first.push(CodecOp::Modify(DAP_PEQ, (filter_count & 7) as u16, 7))
                } else {
                    r@ == first
                }
            }),
            *final(self) == *old(self),
    {
        let mut r = self.automate(eq, audio_eq);
        if (filter_count as u16) > (peq & 7) {
            let mut more = self.eq_filter_count(filter_count);
            r.append(&mut more);
        }
        r
    }

    /// Load biquad coefficients `[b0, b1, b2, a1, a2]` into parametric filter slot
    /// `filter_num`: each coefficient as its upper bits (`c >> 4`) and lower four bits.
    /// With automation on, the parametric mode and enough filters are selected first,
    /// given `audio_eq` and `peq` as read now.
    pub fn eq_filter(&mut self, filter_num: u8, coefficients: &[i32; 5], audio_eq: u16, peq: u16) -> (r: Vec<
        CodecOp,
    >)
        requires
            filter_num < 255,
        ensures
            *final(self) == *old(self),
            ({
                let c = coefficients@;
                let prefix = if old(self).automated() {
                    let first = if (audio_eq & 3) == 1 {
                        Seq::<CodecOp>::empty()
                    } else {
                        seq![CodecOp::Modify(DAP_AUDIO_EQ, 1, 3)]
                    };
                    if ((filter_num + 1) as u16) > (peq & 7) {
                        first.push(CodecOp::Modify(DAP_PEQ, ((filter_num + 1) as u8 & 7) as u16, 7))
                    } else {
                        first
                    }
                } else {
                    Seq::<CodecOp>::empty()
                };
                r@ == prefix + seq![
                    CodecOp::Modify(DAP_FILTER_COEF_ACCESS, filter_num as u16, 15),
                    CodecOp::Write(DAP_COEF_WR_B0_MSB, (c[0] >> 4u32) as u16),
                    CodecOp::Write(DAP_COEF_WR_B0_LSB, (c[0] & 15) as u16),
                    CodecOp::Write(DAP_COEF_WR_B1_MSB, (c[1] >> 4u32) as u16),
                    CodecOp::Write(DAP_COEF_WR_B1_LSB, (c[1] & 15) as u16),
                    CodecOp::Write(DAP_COEF_WR_B2_MSB, (c[2] >> 4u32) as u16),
                    CodecOp::Write(DAP_COEF_WR_B2_LSB, (c[2] & 15) as u16),
                    CodecOp::Write(DAP_COEF_WR_A1_MSB, (c[3] >> 4u32) as u16),
                    CodecOp::Write(DAP_COEF_WR_A1_LSB, (c[3] & 15) as u16),
                    CodecOp::Write(DAP_COEF_WR_A2_MSB, (c[4] >> 4u32) as u16),
                    CodecOp::Write(DAP_COEF_WR_A2_LSB, (c[4] & 15) as u16),
                    CodecOp::Write(DAP_FILTER_COEF_ACCESS, 0x100 | filter_num as u16),
                ]
            }),
    {
        let mut r: Vec<CodecOp> = if self.semi_automated {
            self.automate_with_filter_count(1, filter_num + 1, audio_eq, peq)
        } else {
            Vec::new()
        };
        let ghost prefix = r@;
        r.push(CodecOp::Modify(DAP_FILTER_COEF_ACCESS, filter_num as u16, 15));
        r.push(CodecOp::Write(DAP_COEF_WR_B0_MSB, (coefficients[0] >> 4u32) as u16));
        r.push(CodecOp::Write(DAP_COEF_WR_B0_LSB, (coefficients[0] & 15) as u16));
        r.push(CodecOp::Write(DAP_COEF_WR_B1_MSB, (coefficients[1] >> 4u32) as u16));
        r.push(CodecOp::Write(DAP_COEF_WR_B1_LSB, (coefficients[1] & 15) as u16));
        r.push(CodecOp::Write(DAP_COEF_WR_B2_MSB, (coefficients[2] >> 4u32) as u16));
        r.push(CodecOp::Write(DAP_COEF_WR_B2_LSB, (coefficients[2] & 15) as u16));
        r.push(CodecOp::Write(DAP_COEF_WR_A1_MSB, (coefficients[3] >> 4u32) as u16));
        r.push(CodecOp::Write(DAP_COEF_WR_A1_LSB, (coefficients[3] & 15) as u16));
        r.push(CodecOp::Write(DAP_COEF_WR_A2_MSB, (coefficients[4] >> 4u32) as u16));
        r.push(CodecOp::Write(DAP_COEF_WR_A2_LSB, (coefficients[4] & 15) as u16));
        r.push(CodecOp::Write(DAP_FILTER_COEF_ACCESS, 0x100 | filter_num as u16));
        let c = coefficients;
        assert(r@ =~= prefix + seq![
            CodecOp::Modify(DAP_FILTER_COEF_ACCESS, filter_num as u16, 15),
            CodecOp::Write(DAP_COEF_WR_B0_MSB, (c@[0] >> 4u32) as u16),
            CodecOp::Write(DAP_COEF_WR_B0_LSB, (c@[0] & 15) as u16),
            CodecOp::Write(DAP_COEF_WR_B1_MSB, (c@[1] >> 4u32) as u16),
            CodecOp::Write(DAP_COEF_WR_B1_LSB, (c@[1] & 15) as u16),
            CodecOp::Write(DAP_COEF_WR_B2_MSB, (c@[2] >> 4u32) as u16),
            CodecOp::Write(DAP_COEF_WR_B2_LSB, (c@[2] & 15) as u16),
            CodecOp::Write(DAP_COEF_WR_A1_MSB, (c@[3] >> 4u32) as u16),
            CodecOp::Write(DAP_COEF_WR_A1_LSB, (c@[3] & 15) as u16),
            CodecOp::Write(DAP_COEF_WR_A2_MSB, (c@[4] >> 4u32) as u16),
            CodecOp::Write(DAP_COEF_WR_A2_LSB, (c@[4] & 15) as u16),
            CodecOp::Write(DAP_FILTER_COEF_ACCESS, 0x100 | filter_num as u16),
        ]);
        r
    }

    /// Equalizer band `band` (0 to 4, 115 Hz to 9.9 kHz) set to a level code already
    /// scaled to 0..=95 (47 is flat; above 95 counts as 95).
    pub fn eq_band_code(&mut self, band: u8, code: u16) -> (r: Vec<CodecOp>)
        ensures
            r@ == seq![
                CodecOp::Modify(
                    (DAP_AUDIO_EQ_BASS_BAND0 + band as u16 * 2) as u16,
                    if code > 95 { 95 } else { code },
                    127,
                ),
            ],
            *final(self) == *old(self),
    {
        let c: u16 = if code > 95 { 95 } else { code };
        let addr = DAP_AUDIO_EQ_BASS_BAND0 + band as u16 * 2;
        let mut r: Vec<CodecOp> = Vec::new();
        r.push(CodecOp::Modify(addr, c, 127));
        assert(r@ =~= seq![CodecOp::Modify(addr, c, 127)]);
        r
    }

    /// Surround width (the low three bits of `width`).
    pub fn surround_sound(&mut self, width: u8) -> (r: Vec<CodecOp>)
        ensures
            r@ == seq![CodecOp::Modify(DAP_SGTL_SURROUND, ((width & 7) as u16) << 4u16, 0x70)],
            *final(self) == *old(self),
    {
        let mut r: Vec<CodecOp> = Vec::new();
        r.push(CodecOp::Modify(DAP_SGTL_SURROUND, ((width & 7) as u16) << 4u16, 0x70));
        assert(r@ =~= seq![CodecOp::Modify(DAP_SGTL_SURROUND, ((width & 7) as u16) << 4u16, 0x70)]);
        r
    }

    /// Surround width and mode select (the low three and two bits).
    pub fn surround_sound_with_select(&mut self, width: u8, select: u8) -> (r: Vec<CodecOp>)
        ensures
            r@ == seq![CodecOp::Modify(DAP_SGTL_SURROUND, (((width & 7) as u16) << 4u16) | ((select & 3) as u16), 0x73)],
            *final(self) == *old(self),
    {
        let mut r: Vec<CodecOp> = Vec::new();
        r.push(CodecOp::Modify(DAP_SGTL_SURROUND, (((width & 7) as u16) << 4u16) | ((select & 3) as u16), 0x73));
        assert(r@ =~= seq![CodecOp::Modify(DAP_SGTL_SURROUND, (((width & 7) as u16) << 4u16) | ((select & 3) as u16), 0x73)]);
        r
    }

    /// Enable surround processing.
    pub fn surround_sound_enable(&mut self) -> (r: Vec<CodecOp>)
        ensures
            r@ == seq![CodecOp::Modify(DAP_SGTL_SURROUND, 3, 3)],
            *final(self) == *old(self),
    {
        let mut r: Vec<CodecOp> = Vec::new();
        r.push(CodecOp::Modify(DAP_SGTL_SURROUND, 3, 3));
        assert(r@ =~= seq![CodecOp::Modify(DAP_SGTL_SURROUND, 3, 3)]);
        r
    }

    /// Disable surround processing.
    pub fn surround_sound_disable(&mut self) -> (r: Vec<CodecOp>)
        ensures
            r@ == seq![CodecOp::Modify(DAP_SGTL_SURROUND, 0, 3)],
            *final(self) == *old(self),
    {
        let mut r: Vec<CodecOp> = Vec::new();
        r.push(CodecOp::Modify(DAP_SGTL_SURROUND, 0, 3));
        assert(r@ =~= seq![CodecOp::Modify(DAP_SGTL_SURROUND, 0, 3)]);
        r
    }

    /// Bass enhancement levels as codes already scaled to 0..=0x3F (left/right mix) and 0..=0x7F (bass); larger codes count as the maximum.
    pub fn enhance_bass_codes(&mut self, lr: u8, bass: u8) -> (r: Vec<CodecOp>)
        ensures
            r@ == seq![CodecOp::Modify(DAP_BASS_ENHANCE_CTRL, (((0x3F - (if lr > 0x3F { 0x3Fu8 } else { lr })) as u16) << 8u16) | ((0x7F - (if bass > 0x7F { 0x7Fu8 } else { bass })) as u16), 0x3F7F)],
            *final(self) == *old(self),
    {
        let mut r: Vec<CodecOp> = Vec::new();
        r.push(CodecOp::Modify(DAP_BASS_ENHANCE_CTRL, (((0x3F - (if lr > 0x3F { 0x3Fu8 } else { lr })) as u16) << 8u16) | ((0x7F - (if bass > 0x7F { 0x7Fu8 } else { bass })) as u16), 0x3F7F));
        assert(r@ =~= seq![CodecOp::Modify(DAP_BASS_ENHANCE_CTRL, (((0x3F - (if lr > 0x3F { 0x3Fu8 } else { lr })) as u16) << 8u16) | ((0x7F - (if bass > 0x7F { 0x7Fu8 } else { bass })) as u16), 0x3F7F)]);
        r
    }

    /// Bass enhancement high-pass bypass and cutoff (the low three bits of `cutoff`).
    pub fn enhance_bass_config(&mut self, hpf_bypass: bool, cutoff: u8) -> (r: Vec<CodecOp>)
        ensures
            r@ == seq![CodecOp::Modify(DAP_BASS_ENHANCE, ((if hpf_bypass { 1u16 } else { 0u16 }) << 8u16) | (((cutoff & 7) as u16) << 4u16), 0x170)],
            *final(self) == *old(self),
    {
        let mut r: Vec<CodecOp> = Vec::new();
        r.push(CodecOp::Modify(DAP_BASS_ENHANCE, ((if hpf_bypass { 1u16 } else { 0u16 }) << 8u16) | (((cutoff & 7) as u16) << 4u16), 0x170));
        assert(r@ =~= seq![CodecOp::Modify(DAP_BASS_ENHANCE, ((if hpf_bypass { 1u16 } else { 0u16 }) << 8u16) | (((cutoff & 7) as u16) << 4u16), 0x170)]);
        r
    }

    /// Enable bass enhancement.
    pub fn enhance_bass_enable(&mut self) -> (r: Vec<CodecOp>)
        ensures
            r@ == seq![CodecOp::Modify(DAP_BASS_ENHANCE, 1, 1)],
            *final(self) == *old(self),
    {
        let mut r: Vec<CodecOp> = Vec::new();
        r.push(CodecOp::Modify(DAP_BASS_ENHANCE, 1, 1));
        assert(r@ =~= seq![CodecOp::Modify(DAP_BASS_ENHANCE, 1, 1)]);
        r
    }

    /// Disable bass enhancement.
    pub fn enhance_bass_disable(&mut self) -> (r: Vec<CodecOp>)
        ensures
            r@ == seq![CodecOp::Modify(DAP_BASS_ENHANCE, 0, 1)],
            *final(self) == *old(self),
    {
        let mut r: Vec<CodecOp> = Vec::new();
        r.push(CodecOp::Modify(DAP_BASS_ENHANCE, 0, 1));
        assert(r@ =~= seq![CodecOp::Modify(DAP_BASS_ENHANCE, 0, 1)]);
        r
    }

    /// Stop selecting equalizer modes automatically.
    pub fn kill_automation(&mut self)
        ensures
            !final(self).automated(),
            final(self).addr() == old(self).addr(),
            final(self).ana() == old(self).ana(),
            final(self).hp_muted() == old(self).hp_muted(),
    {
        self.semi_automated = false;
    }
}

} // verus!
