//! Texas Instruments SN76489 programmable sound generator: three square-wave
//! tone channels (0-2) and one noise channel (3), each with a 10-bit period
//! and a 4-bit attenuation.
//!
//! ```text
//!   1 ccc dddd   latch: ccc = channel (bits 6-5) and type (bit 4: 1 = volume),
//!                dddd = low four bits of the value
//!   0 x dddddd   data: high six bits of the latched register
//! ```
//!
//! On the BBC the chip is fed from the System VIA's slow data bus and latches
//! a byte on the rising edge of IC32 bit 0 (/SOUND_WE).
use vstd::prelude::*;
use crate::le::{le16, le32, push_le16, push_le32};
use vstd::array::spec_array_update;

verus! {

broadcast use vstd::array::group_array_axioms;

/// The chip's internal clock: 4 MHz / 16.
pub const CHIP_CLOCK_HZ: u32 = 250_000;

/// Amplitude per attenuation step: 8000 scaled by 0.7943 (about 2 dB) per
/// step, truncated, with step 15 silent.
pub open spec fn attenuation_amplitude(att: u8) -> i16 {
    if att == 0 {
        8000
    } else if att == 1 {
        6354
    } else if att == 2 {
        5047
    } else if att == 3 {
        4009
    } else if att == 4 {
        3184
    } else if att == 5 {
        2529
    } else if att == 6 {
        2009
    } else if att == 7 {
        1595
    } else if att == 8 {
        1267
    } else if att == 9 {
        1006
    } else if att == 10 {
        799
    } else if att == 11 {
        635
    } else if att == 12 {
        504
    } else if att == 13 {
        400
    } else if att == 14 {
        318
    } else {
        0
    }
}

fn attenuation_table() -> (t: [i16; 16])
    ensures
        forall|i: int| 0 <= i < 16 ==> t@[i] == attenuation_amplitude(i as u8),
{
    [8000, 6354, 5047, 4009, 3184, 2529, 2009, 1595, 1267, 1006, 799, 635, 504, 400, 318, 0]
}

#[derive(Clone, Copy)]
pub struct Channel {
    /// 10-bit divider value.
    pub period: u16,
    /// 4-bit attenuation (0 = loudest, 15 = silent).
    pub attenuation: u8,
    /// Down-counter in chip clocks; the output flips when it runs out.
    pub counter: i32,
    /// Square-wave output level (0 or 1).
    pub output: u8,
}

pub struct Sn76489 {
    pub channels: [Channel; 4],
    /// Last latched register: bit 0 selects volume (1) / frequency (0),
    /// bits 2-1 the channel.
    pub latched_reg: u8,
    /// Noise shift register.
    pub noise_lfsr: u16,
    /// Noise control: bits 1-0 rate, bit 2 white (1) / periodic (0).
    pub noise_ctrl: u8,
}

/// Period used by the tone counters: never below one clock.
pub open spec fn at_least_one(p: int) -> int {
    if p < 1 { 1 } else { p }
}

/// Refill a tone counter that has run out, flipping the output each time.
pub open spec fn tone_refill(counter: int, output: u8, period: int) -> (int, u8)
    decreases (if counter <= 0 { 1 - counter } else { 0 }),
{
    if counter > 0 {
        (counter, output)
    } else {
        tone_refill(counter + at_least_one(period), output ^ 1, period)
    }
}

/// Noise feedback bit: bit 0 XOR bit 3 for white noise, bit 0 otherwise.
pub open spec fn noise_feedback(lfsr: u16, ctrl: u8) -> u16 {
    if ctrl & 0x04 != 0 {
        ((lfsr >> 3) ^ lfsr) & 1
    } else {
        lfsr & 1
    }
}

/// Refill the noise counter, shifting the LFSR once per refill.
pub open spec fn noise_refill(counter: int, lfsr: u16, output: u8, ctrl: u8, period: int) -> (
    int,
    u16,
    u8,
)
    decreases (if counter <= 0 { 1 - counter } else { 0 }),
{
    if counter > 0 || period < 1 {
        (counter, lfsr, output)
    } else {
        let l = (lfsr >> 1) | (noise_feedback(lfsr, ctrl) << 15);
        noise_refill(counter + period, l, (l & 1) as u8, ctrl, period)
    }
}

/// Signed contribution of one channel: +amplitude when high, else -.
pub open spec fn contribution(c: Channel) -> int {
    if c.output != 0 {
        attenuation_amplitude(c.attenuation) as int
    } else {
        -(attenuation_amplitude(c.attenuation) as int)
    }
}

pub open spec fn clamp_i16(x: int) -> i16 {
    if x < -32768 {
        -32768i16
    } else if x > 32767 {
        32767i16
    } else {
        x as i16
    }
}

/// Chip clocks per output sample at `sample_rate` Hz: the 250 kHz chip
/// clock divided by the rate taken as a signed 32-bit value. A rate above
/// `i32::MAX` reads as a negative divisor; `synthesize` admits only those of
/// magnitude above 250 000, whose truncated quotient is 0.
pub open spec fn chip_clocks_per_sample(sample_rate: u32) -> int {
    if sample_rate <= 0x7FFF_FFFF {
        250_000int / (sample_rate as int)
    } else {
        0
    }
}

impl Sn76489 {
    /// Attenuations in range and counters between 0 and one period.
    pub open spec fn wf(self) -> bool {
        forall|i: int|
            0 <= i < 4 ==> #[trigger] self.channels@[i].attenuation < 16 && 0
                <= self.channels@[i].counter <= 65535
    }

    /// Noise period in chip clocks for the current control byte.
    pub open spec fn noise_period(self) -> int {
        let rate = self.noise_ctrl % 4;
        if rate == 0 {
            0x10
        } else if rate == 1 {
            0x20
        } else if rate == 2 {
            0x40
        } else {
            at_least_one(self.channels@[2].period as int)
        }
    }

    /// A tone channel after `clocks` chip clocks.
    pub open spec fn tone_after(c: Channel, clocks: int) -> Channel {
        let (counter, output) = tone_refill(c.counter - clocks, c.output, c.period as int);
        Channel { counter: counter as i32, output, ..c }
    }

    /// The chip after one output sample of `clocks` chip clocks: tone
    /// channels first, then the noise channel (whose rate 3 follows tone 2).
    pub open spec fn sample_step(self, clocks: int) -> Self {
        let c0 = Self::tone_after(self.channels@[0], clocks);
        let c1 = Self::tone_after(self.channels@[1], clocks);
        let c2 = Self::tone_after(self.channels@[2], clocks);
        let n = self.channels@[3];
        let (counter, lfsr, output) = noise_refill(
            n.counter - clocks,
            self.noise_lfsr,
            n.output,
            self.noise_ctrl,
            self.noise_period(),
        );
        let c3 = Channel { counter: counter as i32, output, ..n };
        let chans = spec_array_update(
            spec_array_update(
                spec_array_update(spec_array_update(self.channels, 0, c0), 1, c1),
                2,
                c2,
            ),
            3,
            c3,
        );
        Sn76489 { channels: chans, noise_lfsr: lfsr, ..self }
    }

    /// Output sample for the current channel outputs.
    pub open spec fn mix(self) -> i16 {
        clamp_i16(
            contribution(self.channels@[0]) + contribution(self.channels@[1]) + contribution(
                self.channels@[2],
            ) + contribution(self.channels@[3]),
        )
    }

    /// `n` samples: the chip afterwards and the samples produced.
    pub open spec fn synth(self, clocks: int, n: nat) -> (Self, Seq<i16>)
        decreases n,
    {
        if n == 0 {
            (self, Seq::empty())
        } else {
            let (s, out) = self.synth(clocks, (n - 1) as nat);
            let s2 = s.sample_step(clocks);
            (s2, out.push(s2.mix()))
        }
    }

    /// Effect of writing one byte on the slow data bus.
    pub open spec fn after_write(self, value: u8) -> Self {
        if value >= 0x80 {
            let reg = (value / 16) % 8;
            let data = value % 16;
            let ch = (reg / 2) as int;
            let c = self.channels@[ch];
            if reg % 2 == 1 {
                Sn76489 {
                    latched_reg: reg,
                    channels: spec_array_update(
                        self.channels,
                        ch,
                        Channel { attenuation: data, ..c },
                    ),
                    ..self
                }
            } else if ch == 3 {
                Sn76489 { latched_reg: reg, noise_ctrl: data, noise_lfsr: 0x8000, ..self }
            } else {
                Sn76489 {
                    latched_reg: reg,
                    channels: spec_array_update(
                        self.channels,
                        ch,
                        Channel { period: ((c.period & 0x3F0) | (data as u16)) as u16, ..c },
                    ),
                    ..self
                }
            }
        } else {
            let data = value % 64;
            let ch = ((self.latched_reg % 8) / 2) as int;
            let c = self.channels@[ch];
            if self.latched_reg % 2 == 1 {
                Sn76489 {
                    channels: spec_array_update(
                        self.channels,
                        ch,
                        Channel { attenuation: data % 16, ..c },
                    ),
                    ..self
                }
            } else if ch == 3 {
                Sn76489 { noise_ctrl: data % 16, noise_lfsr: 0x8000, ..self }
            } else {
                Sn76489 {
                    channels: spec_array_update(
                        self.channels,
                        ch,
                        Channel { period: ((c.period & 0x00F) | ((data as u16) << 4)) as u16, ..c },
                    ),
                    ..self
                }
            }
        }
    }

    pub fn new() -> (s: Self)
        ensures
            s.wf(),
            forall|i: int|
                0 <= i < 4 ==> #[trigger] s.channels@[i] == (Channel {
                    period: 1,
                    attenuation: 0x0F,
                    counter: 0,
                    output: 0,
                }),
            s.latched_reg == 0,
            s.noise_lfsr == 0x8000,
            s.noise_ctrl == 0,
    {
        let silent = Channel { period: 1, attenuation: 0x0F, counter: 0, output: 0 };
        Sn76489 { channels: [silent; 4], latched_reg: 0, noise_lfsr: 0x8000, noise_ctrl: 0 }
    }

    /// Write one byte via the slow data bus.
    pub fn write(&mut self, value: u8)
        ensures
            *final(self) == old(self).after_write(value),
            old(self).wf() ==> final(self).wf(),
    {
        assert(((value & 0x80 != 0) == (value >= 0x80)) && (value >> 4) & 0x07 == (value / 16) % 8
            && value & 0x0F == value % 16 && value & 0x3F == value % 64) by (bit_vector);
        if value & 0x80 != 0 {
            let reg = (value >> 4) & 0x07;
            self.latched_reg = reg;
            let data = value & 0x0F;
            assert(reg & 1 == reg % 2 && reg >> 1 == reg / 2) by {
            crate::bits::lemma_byte_fields(reg);
        }
            let ch = (reg >> 1) as usize;
            if reg & 1 == 1 {
                let mut c = self.channels[ch];
                c.attenuation = data;
                self.channels[ch] = c;
            } else if ch == 3 {
                self.noise_ctrl = data;
                self.noise_lfsr = 0x8000;
            } else {
                let mut c = self.channels[ch];
                c.period = (c.period & 0x3F0) | data as u16;
                self.channels[ch] = c;
            }
        } else {
            let data = (value & 0x3F) as u16;
            let l = self.latched_reg;
            assert(l & 1 == l % 2 && (l >> 1) & 0x03 == (l % 8) / 2) by {
            crate::bits::lemma_byte_fields(l);
        }
            assert(data & 0x0F == data % 16 && data & 0x3F == data) by (bit_vector)
                requires
                    data < 64,
            ;
            let ch = ((self.latched_reg >> 1) & 0x03) as usize;
            if self.latched_reg & 1 == 1 {
                let mut c = self.channels[ch];
                c.attenuation = (data & 0x0F) as u8;
                self.channels[ch] = c;
            } else if ch == 3 {
                self.noise_ctrl = (data & 0x0F) as u8;
                self.noise_lfsr = 0x8000;
            } else {
                let mut c = self.channels[ch];
                c.period = (c.period & 0x00F) | ((data & 0x3F) << 4);
                self.channels[ch] = c;
            }
        }
        assert(self.channels =~= old(self).after_write(value).channels);
    }

    fn run_tone(c: Channel, clocks: i32) -> (r: Channel)
        requires
            0 <= c.counter <= 65535,
            0 <= clocks <= 250_000,
        ensures
            r == Self::tone_after(c, clocks as int),
            0 < r.counter <= 65535,
    {
        let mut ch = c;
        ch.counter = ch.counter - clocks;
        let p: i32 = if ch.period < 1 { 1 } else { ch.period as i32 };
        while ch.counter <= 0
            invariant
                p == at_least_one(c.period as int),
                ch.period == c.period && ch.attenuation == c.attenuation,
                -250_000 <= ch.counter <= 65535,
                tone_refill(ch.counter as int, ch.output, c.period as int) == tone_refill(
                    c.counter - clocks,
                    c.output,
                    c.period as int,
                ),
            decreases 65536 - ch.counter,
        {
            ch.output = ch.output ^ 1;
            ch.counter = ch.counter + p;
        }
        ch
    }

    /// Generate `n` signed 16-bit samples at `sample_rate` Hz.
    pub fn synthesize(&mut self, sample_rate: u32, n: usize) -> (out: Vec<i16>)
        requires
            old(self).wf(),
            0 < sample_rate < 0xFFFC_2F70,
        ensures
            ({
                let (s, samples) = old(self).synth(chip_clocks_per_sample(sample_rate), n as nat);
                *final(self) == s && out@ == samples
            }),
            final(self).wf(),
    {
        let mut out: Vec<i16> = Vec::new();
        let clocks_per_sample: i32 = if sample_rate <= 0x7FFF_FFFF {
            (250_000u32 / sample_rate) as i32
        } else {
            0
        };
        let ghost clocks = chip_clocks_per_sample(sample_rate);
        let ghost start = *self;
        let table = attenuation_table();
        let mut k: usize = 0;
        while k < n
            invariant
                k <= n,
                clocks_per_sample == clocks,
                0 <= clocks <= 250_000,
                self.wf(),
                forall|i: int| 0 <= i < 16 ==> table@[i] == attenuation_amplitude(i as u8),
                (*self, out@) == start.synth(clocks, k as nat),
            decreases n - k,
        {
            let c0 = Self::run_tone(self.channels[0], clocks_per_sample);
            self.channels[0] = c0;
            let c1 = Self::run_tone(self.channels[1], clocks_per_sample);
            self.channels[1] = c1;
            let c2 = Self::run_tone(self.channels[2], clocks_per_sample);
            self.channels[2] = c2;
            let nc = self.noise_ctrl;
            assert(nc & 0x03 == nc % 4 && (nc & 0x04 != 0) == ((nc & 0x04) != 0)) by {
            crate::bits::lemma_byte_fields(nc);
        }
            let rate = self.noise_ctrl & 0x03;
            let noise_period: i32 = if rate == 0 {
                0x10
            } else if rate == 1 {
                0x20
            } else if rate == 2 {
                0x40
            } else if self.channels[2].period < 1 {
                1
            } else {
                self.channels[2].period as i32
            };
            let mut ch = self.channels[3];
            ch.counter = ch.counter - clocks_per_sample;
            let ghost n0 = ch;
            let ghost pre_noise = *self;
            while ch.counter <= 0
                invariant
                    1 <= noise_period <= 65535,
                    ch.period == n0.period && ch.attenuation == n0.attenuation,
                    -250_000 <= ch.counter <= 65535,
                    *self == (Sn76489 { noise_lfsr: self.noise_lfsr, ..pre_noise }),
                    noise_refill(
                        ch.counter as int,
                        self.noise_lfsr,
                        ch.output,
                        self.noise_ctrl,
                        noise_period as int,
                    ) == noise_refill(
                        n0.counter as int,
                        pre_noise.noise_lfsr,
                        n0.output,
                        self.noise_ctrl,
                        noise_period as int,
                    ),
                decreases 65536 - ch.counter,
            {
                let l = self.noise_lfsr;
                let new = if self.noise_ctrl & 0x04 != 0 {
                    ((l >> 3) ^ l) & 1
                } else {
                    l & 1
                };
                self.noise_lfsr = (l >> 1) | (new << 15);
                ch.output = (self.noise_lfsr & 1) as u8;
                ch.counter = ch.counter + noise_period;
            }
            self.channels[3] = ch;
            let mut sample: i32 = 0;
            let mut i: usize = 0;
            while i < 4
                invariant
                    i <= 4,
                    self.wf(),
                    forall|j: int| 0 <= j < 16 ==> table@[j] == attenuation_amplitude(j as u8),
                    sample == (if i > 0 { contribution(self.channels@[0]) } else { 0 }) + (if i
                        > 1 { contribution(self.channels@[1]) } else { 0 }) + (if i > 2 {
                        contribution(self.channels@[2])
                    } else { 0 }) + (if i > 3 { contribution(self.channels@[3]) } else { 0 }),
                decreases 4 - i,
            {
                let c = self.channels[i];
                let amp = table[c.attenuation as usize] as i32;
                if c.output != 0 {
                    sample = sample + amp;
                } else {
                    sample = sample - amp;
                }
                i = i + 1;
            }
            let s: i16 = if sample < -32768 {
                -32768
            } else if sample > 32767 {
                32767
            } else {
                sample as i16
            };
            out.push(s);
            k = k + 1;
        }
        out
    }
    pub fn channel_period(&self, ch: usize) -> (p: u16)
        requires
            ch < 4,
        ensures
            p == self.channels@[ch as int].period,
    {
        self.channels[ch].period
    }

    pub fn channel_attenuation(&self, ch: usize) -> (a: u8)
        requires
            ch < 4,
        ensures
            a == self.channels@[ch as int].attenuation,
    {
        self.channels[ch].attenuation
    }

    /// Set a channel's period (channels 0..4; others ignored).
    pub fn set_channel_period(&mut self, ch: usize, period: u16)
        ensures
            ch < 4 ==> final(self).channels@ == old(self).channels@.update(
                ch as int,
                Channel { period, ..old(self).channels@[ch as int] },
            ),
            ch >= 4 ==> final(self).channels == old(self).channels,
            final(self).latched_reg == old(self).latched_reg,
            final(self).noise_lfsr == old(self).noise_lfsr,
            final(self).noise_ctrl == old(self).noise_ctrl,
            old(self).wf() ==> final(self).wf(),
    {
        if ch < 4 {
            let mut c = self.channels[ch];
            c.period = period;
            self.channels[ch] = c;
        }
    }

    /// Set a channel's attenuation (channels 0..4; others ignored).
    pub fn set_channel_attenuation(&mut self, ch: usize, att: u8)
        ensures
            ch < 4 ==> final(self).channels@ == old(self).channels@.update(
                ch as int,
                Channel { attenuation: att, ..old(self).channels@[ch as int] },
            ),
            ch >= 4 ==> final(self).channels == old(self).channels,
            final(self).latched_reg == old(self).latched_reg,
            final(self).noise_lfsr == old(self).noise_lfsr,
            final(self).noise_ctrl == old(self).noise_ctrl,
            old(self).wf() && att < 16 ==> final(self).wf(),
    {
        if ch < 4 {
            let mut c = self.channels[ch];
            c.attenuation = att;
            self.channels[ch] = c;
        }
    }

    pub fn noise_ctrl_byte(&self) -> (v: u8)
        ensures
            v == self.noise_ctrl,
    {
        self.noise_ctrl
    }

    pub fn set_noise_ctrl_byte(&mut self, v: u8)
        ensures
            *final(self) == (Sn76489 { noise_ctrl: v, ..*old(self) }),
    {
        self.noise_ctrl = v;
    }

    /// True if some channel is not silent and has a period above one.
    pub fn is_audible(&self) -> (b: bool)
        ensures
            b == exists|i: int|
                0 <= i < 4 && #[trigger] self.channels@[i].attenuation < 0x0F
                    && self.channels@[i].period > 1,
    {
        let mut i: usize = 0;
        while i < 4
            invariant
                i <= 4,
                forall|j: int|
                    0 <= j < i ==> !(#[trigger] self.channels@[j].attenuation < 0x0F
                        && self.channels@[j].period > 1),
            decreases 4 - i,
        {
            let c = self.channels[i];
            if c.attenuation < 0x0F && c.period > 1 {
                return true;
            }
            i = i + 1;
        }
        false
    }
}

/// Header of a mono 16-bit PCM WAV file holding `data_size` bytes of
/// samples at `rate` samples per second.
pub open spec fn wav_header(data_size: u32, rate: u32) -> Seq<u8> {
    seq![0x52u8, 0x49u8, 0x46u8, 0x46u8] + le32((36 + data_size) as u32) + seq![
        0x57u8,
        0x41u8,
        0x56u8,
        0x45u8,
        0x66u8,
        0x6Du8,
        0x74u8,
        0x20u8,
    ] + le32(16) + le16(1) + le16(1) + le32(rate) + le32((rate * 2) as u32) + le16(2) + le16(16)
        + seq![0x64u8, 0x61u8, 0x74u8, 0x61u8] + le32(data_size)
}

/// Samples as little-endian 16-bit words.
pub open spec fn pcm_bytes(pcm: Seq<i16>) -> Seq<u8> {
    Seq::new(
        2 * pcm.len(),
        |i: int|
            if i % 2 == 0 {
                ((pcm[i / 2] as u16) % 256) as u8
            } else {
                ((pcm[i / 2] as u16) / 256) as u8
            },
    )
}

/// A mono 16-bit PCM WAV file ("RIFF" / "WAVE", a 16-byte "fmt " chunk,
/// then the "data" chunk) holding `pcm` at `sample_rate`.
pub fn wav_bytes(pcm: &[i16], sample_rate: u32) -> (out: Vec<u8>)
    requires
        2 * pcm@.len() + 36 <= u32::MAX,
        2 * sample_rate <= u32::MAX,
    ensures
        out@ == wav_header((2 * pcm@.len()) as u32, sample_rate) + pcm_bytes(pcm@),
{
    let data_size = (pcm.len() * 2) as u32;
    let mut out: Vec<u8> = Vec::new();
    out.push(0x52);
    out.push(0x49);
    out.push(0x46);
    out.push(0x46);
    push_le32(&mut out, 36 + data_size);
    let ghost a = out@;
    out.push(0x57);
    out.push(0x41);
    out.push(0x56);
    out.push(0x45);
    out.push(0x66);
    out.push(0x6D);
    out.push(0x74);
    out.push(0x20);
    assert(out@ =~= a + seq![0x57u8, 0x41u8, 0x56u8, 0x45u8, 0x66u8, 0x6Du8, 0x74u8, 0x20u8]);
    push_le32(&mut out, 16);
    push_le16(&mut out, 1);
    push_le16(&mut out, 1);
    push_le32(&mut out, sample_rate);
    push_le32(&mut out, sample_rate * 2);
    push_le16(&mut out, 2);
    push_le16(&mut out, 16);
    let ghost b = out@;
    out.push(0x64);
    out.push(0x61);
    out.push(0x74);
    out.push(0x61);
    assert(out@ =~= b + seq![0x64u8, 0x61u8, 0x74u8, 0x61u8]);
    push_le32(&mut out, data_size);
    let ghost header = out@;
    assert(header =~= wav_header(data_size, sample_rate));
    let mut i: usize = 0;
    while i < pcm.len()
        invariant
            i <= pcm@.len(),
            out@.len() == header.len() + 2 * i,
            out@.subrange(0, header.len() as int) == header,
            forall|k: int|
                0 <= k < 2 * i ==> #[trigger] out@[header.len() + k] == pcm_bytes(pcm@)[k],
        decreases pcm@.len() - i,
    {
        let v = pcm[i] as u16;
        out.push((v % 256) as u8);
        out.push((v / 256) as u8);
        assert(out@.subrange(0, header.len() as int) =~= header);
        i = i + 1;
    }
    assert forall|j: int| 0 <= j < out@.len() implies out@[j] == (header + pcm_bytes(pcm@))[j] by {
        if j < header.len() {
            assert(out@.subrange(0, header.len() as int)[j] == out@[j]);
        } else {
            let k = j - header.len();
            assert(out@[header.len() + k] == pcm_bytes(pcm@)[k]);
        }
    }
    assert(out@ =~= header + pcm_bytes(pcm@));
    out
}

/// A noise latch byte `0xE0 | n` sets the noise control to all four bits
/// of `n` (bit 2 white noise, bits 1-0 rate) and reseeds the noise shift
/// register; the tone channels keep their settings.
pub proof fn lemma_noise_latch(s: Sn76489, n: u8)
    requires
        n < 16,
    ensures
        ({
            let t = s.after_write(0xE0u8 | n);
            &&& t.noise_ctrl == n
            &&& t.noise_lfsr == 0x8000
            &&& t.latched_reg == 6
            &&& t.channels == s.channels
        }),
{
    let v = 0xE0u8 | n;
    assert(v >= 0x80 && (v / 16) % 8 == 6 && v % 16 == n) by (bit_vector)
        requires
            v == 0xE0u8 | n,
            n < 16,
    ;
}

/// An attenuation latch byte `0x90 | ch << 5 | a` sets channel `ch`'s
/// attenuation to `a`, leaving the other channels alone.
pub proof fn lemma_attenuation_latch(s: Sn76489, ch: u8, a: u8)
    requires
        ch < 4,
        a < 16,
    ensures
        ({
            let t = s.after_write(0x90u8 | (ch << 5) | a);
            &&& t.channels@[ch as int] == (Channel { attenuation: a, ..s.channels@[ch as int] })
            &&& forall|k: int| 0 <= k < 4 && k != ch ==> t.channels@[k] == s.channels@[k]
        }),
{
    let v = 0x90u8 | (ch << 5) | a;
    assert(v >= 0x80 && (v / 16) % 8 == ch * 2 + 1 && v % 16 == a) by (bit_vector)
        requires
            v == 0x90u8 | (ch << 5) | a,
            ch < 4,
            a < 16,
    ;
}

/// A tone latch byte `0x80 | ch << 5 | lo` followed by a data byte `hi`
/// (below 64) sets tone channel `ch`'s ten-bit period to `hi * 16 + lo`.
pub proof fn lemma_tone_period_written(s: Sn76489, ch: u8, lo: u8, hi: u8)
    requires
        ch < 3,
        lo < 16,
        hi < 64,
    ensures
        ({
            let t = s.after_write(0x80u8 | (ch << 5) | lo).after_write(hi);
            &&& t.channels@[ch as int] == (Channel {
                period: (hi * 16 + lo) as u16,
                ..s.channels@[ch as int]
            })
            &&& forall|k: int| 0 <= k < 4 && k != ch ==> t.channels@[k] == s.channels@[k]
            &&& t.latched_reg == ch * 2
        }),
{
    let v = 0x80u8 | (ch << 5) | lo;
    assert(v >= 0x80 && (v / 16) % 8 == ch * 2 && v % 16 == lo) by (bit_vector)
        requires
            v == 0x80u8 | (ch << 5) | lo,
            ch < 3,
            lo < 16,
    ;
    let p = s.channels@[ch as int].period;
    let p1: u16 = ((p & 0x3F0) | (lo as u16)) as u16;
    assert(((p1 & 0x00F) | ((hi as u16) << 4)) as u16 == hi * 16 + lo) by (bit_vector)
        requires
            p1 == (p & 0x3F0) | (lo as u16),
            lo < 16,
            hi < 64,
    ;
}

} // verus!
