//! The hub's sideband expander (TCA6408): per channel a power-enable input
//! and an over-current line, driven low to signal over-current.
use vstd::prelude::*;

verus! {

pub const TCA6408_ADDR: u8 = 0x20;
pub const REG_INPUT: u8 = 0x00;
pub const REG_OUTPUT: u8 = 0x01;
pub const REG_POLARITY: u8 = 0x02;
pub const REG_CONFIG: u8 = 0x03;
pub const PWREN_MASK: u8 = 0x55;

/// Power-enable pin of a channel (channels taken modulo 4): P0, P2, P4, P6.
pub open spec fn spec_pwren_bit(ch: u8) -> u8 {
    if ch % 4 == 0 {
        1
    } else if ch % 4 == 1 {
        4
    } else if ch % 4 == 2 {
        16
    } else {
        64
    }
}

/// Over-current pin of a channel (channels taken modulo 4): P1, P3, P5, P7.
pub open spec fn spec_ovcur_bit(ch: u8) -> u8 {
    if ch % 4 == 0 {
        2
    } else if ch % 4 == 1 {
        8
    } else if ch % 4 == 2 {
        32
    } else {
        128
    }
}

pub fn pwren_bit(ch: u8) -> (b: u8)
    ensures
        b == spec_pwren_bit(ch),
{
    assert(ch & 0x03 == ch % 4) by (bit_vector);
    let shift = (ch & 0x03) * 2;
    assert(1u8 << 0u8 == 1u8 && 1u8 << 2u8 == 4u8 && 1u8 << 4u8 == 16u8 && 1u8 << 6u8 == 64u8)
        by (bit_vector);
    1u8 << shift
}

pub fn ovcur_bit(ch: u8) -> (b: u8)
    ensures
        b == spec_ovcur_bit(ch),
{
    assert(ch & 0x03 == ch % 4) by (bit_vector);
    let shift = (ch & 0x03) * 2 + 1;
    assert(1u8 << 1u8 == 2u8 && 1u8 << 3u8 == 8u8 && 1u8 << 5u8 == 32u8 && 1u8 << 7u8 == 128u8)
        by (bit_vector);
    1u8 << shift
}

/// The expander's registers and what they say of each channel.
#[derive(Copy, Clone, Debug, PartialEq, Eq)]
pub struct Snapshot {
    pub input: u8,
    pub output: u8,
    pub polarity: u8,
    pub config: u8,
    pub pwren_enabled: [bool; 4],
    pub ovcur_asserted: [bool; 4],
}

/// A channel's power is enabled when its enable input reads low.
pub open spec fn spec_pwren_enabled(input: u8, ch: u8) -> bool {
    input & spec_pwren_bit(ch) == 0
}

/// A channel's over-current is asserted when its pin is an output driven low.
pub open spec fn spec_ovcur_asserted(output: u8, config: u8, ch: u8) -> bool {
    config & spec_ovcur_bit(ch) == 0 && output & spec_ovcur_bit(ch) == 0
}

impl Snapshot {
    /// Reads the channel states out of the four registers.
    pub fn from_registers(input: u8, output: u8, polarity: u8, config: u8) -> (s: Snapshot)
        ensures
            s.input == input && s.output == output && s.polarity == polarity && s.config == config,
            forall|ch: int|
                0 <= ch < 4 ==> s.pwren_enabled@[ch] == spec_pwren_enabled(input, ch as u8)
                    && s.ovcur_asserted@[ch] == spec_ovcur_asserted(output, config, ch as u8),
    {
        let mut pwren_enabled = [false, false, false, false];
        let mut ovcur_asserted = [false, false, false, false];
        let mut ch: u8 = 0;
        while ch < 4
            invariant
                0 <= ch <= 4,
                pwren_enabled@.len() == 4,
                ovcur_asserted@.len() == 4,
                forall|j: int|
                    0 <= j < ch ==> pwren_enabled@[j] == spec_pwren_enabled(input, j as u8)
                        && ovcur_asserted@[j] == spec_ovcur_asserted(output, config, j as u8),
            decreases 4 - ch,
        {
            let pwren = pwren_bit(ch);
            let ovcur = ovcur_bit(ch);
            pwren_enabled[ch as usize] = (input & pwren) == 0;
            ovcur_asserted[ch as usize] = (config & ovcur) == 0 && (output & ovcur) == 0;
            ch = ch + 1;
        }
        Snapshot { input, output, polarity, config, pwren_enabled, ovcur_asserted }
    }
}

/// Output and configuration registers after signalling (or clearing)
/// over-current on a channel: asserting drives its pin low as an output,
/// clearing releases it high as an input; the power-enable pins stay inputs.
pub open spec fn overcurrent_targets(output: u8, config: u8, ch: u8, asserted: bool) -> (u8, u8) {
    let bit = spec_ovcur_bit(ch);
    if asserted {
        (output & !bit, (config & !bit) | PWREN_MASK)
    } else {
        (output | bit, config | bit | PWREN_MASK)
    }
}

/// The expander's output and configuration registers as last written.
#[derive(Copy, Clone, Debug, PartialEq, Eq, Structural)]
pub struct Controller {
    output: u8,
    config: u8,
}

impl Controller {
    pub closed spec fn spec_output(self) -> u8 {
        self.output
    }

    pub closed spec fn spec_config(self) -> u8 {
        self.config
    }

    /// Every pin high and an input, as written at start-up.
    pub fn new() -> (c: Self)
        ensures
            c.spec_output() == 0xff && c.spec_config() == 0xff,
    {
        Controller { output: 0xFF, config: 0xFF }
    }

    pub fn output(&self) -> (v: u8)
        ensures
            v == self.spec_output(),
    {
        self.output
    }

    pub fn config(&self) -> (v: u8)
        ensures
            v == self.spec_config(),
    {
        self.config
    }

    /// The registers that signal (or clear) over-current on channel `ch`.
    pub fn overcurrent_targets(&self, ch: u8, asserted: bool) -> (r: (u8, u8))
        ensures
            r == overcurrent_targets(self.spec_output(), self.spec_config(), ch, asserted),
    {
        let bit = ovcur_bit(ch);
        if asserted {
            (self.output & !bit, (self.config & !bit) | PWREN_MASK)
        } else {
            (self.output | bit, self.config | bit | PWREN_MASK)
        }
    }

    /// Records that the output register now holds `output`.
    pub fn commit_output(&mut self, output: u8)
        ensures
            final(self).spec_output() == output,
            final(self).spec_config() == old(self).spec_config(),
    {
        self.output = output;
    }

    /// Records that the configuration register now holds `config`.
    pub fn commit_config(&mut self, config: u8)
        ensures
            final(self).spec_config() == config,
            final(self).spec_output() == old(self).spec_output(),
    {
        self.config = config;
    }
}

/// Signalling over-current on a channel makes the expander report it
/// asserted, clearing it makes it report it clear, other channels' lines are
/// left as they were, and the power-enable pins stay inputs.
pub proof fn lemma_overcurrent_is_reported(output: u8, config: u8, ch: u8, asserted: bool, other: u8)
    requires
        other % 4 != ch % 4,
    ensures
        ({
            let (o, c) = overcurrent_targets(output, config, ch, asserted);
            &&& spec_ovcur_asserted(o, c, ch) == asserted
            &&& o & spec_ovcur_bit(other) == output & spec_ovcur_bit(other)
            &&& c & spec_ovcur_bit(other) == config & spec_ovcur_bit(other)
            &&& c & PWREN_MASK == PWREN_MASK
        }),
{
    let bit = spec_ovcur_bit(ch);
    let obit = spec_ovcur_bit(other);
    assert(bit == 2 || bit == 8 || bit == 32 || bit == 128);
    assert(obit == 2 || obit == 8 || obit == 32 || obit == 128);
    assert(bit != obit);
    assert({
        &&& (output & !bit) & bit == 0
        &&& ((config & !bit) | 0x55u8) & bit == 0
        &&& (output | bit) & bit != 0
        &&& (output & !bit) & obit == output & obit
        &&& ((config & !bit) | 0x55u8) & obit == config & obit
        &&& (output | bit) & obit == output & obit
        &&& (config | bit | 0x55u8) & obit == config & obit
        &&& ((config & !bit) | 0x55u8) & 0x55u8 == 0x55u8
        &&& (config | bit | 0x55u8) & 0x55u8 == 0x55u8
    }) by (bit_vector)
        requires
            bit == 2 || bit == 8 || bit == 32 || bit == 128,
            obit == 2 || obit == 8 || obit == 32 || obit == 128,
            bit != obit,
    ;
}

} // verus!
