//! NEC uPD7002 four-channel analogue-to-digital converter at $FEC0-$FEC3.
//!
//! ```text
//!   $FEC0  W = start conversion (channel + resolution)   R = status
//!   $FEC1  R = result high byte
//!   $FEC2  R = result low byte
//!   $FEC3  W = start conversion                           R = control latch
//! ```
//!
//! Status: bit 7 busy, bits 5-4 and 2 mirror the control byte, bits 3-2
//! mirror the top two bits of the result. A 10-bit conversion takes 8000
//! CPU cycles (about 4 ms at 2 MHz), a 12-bit one 20000.
use vstd::prelude::*;

verus! {

/// A joystick axis: signed, -32768..32767, converted as straight binary.
pub type AnalogValue = i16;

pub struct UpD7002 {
    pub control: u8,
    pub result_hi: u8,
    pub result_lo: u8,
    /// True while a conversion is in progress.
    pub busy: bool,
    /// Cycles until the running conversion completes.
    pub cycles_remaining: u32,
    /// Per-channel analogue inputs.
    pub inputs: [AnalogValue; 4],
    /// Set when a conversion completes; consumed by `poll_eoc_edge`.
    pub eoc_edge: bool,
}

/// Conversion time in CPU cycles for a control byte (bit 4 = 12-bit).
pub open spec fn conversion_cycles(control: u8) -> u32 {
    if control & 0x10 != 0 { 20_000 } else { 8_000 }
}

/// Unsigned result of converting a signed input: offset binary.
pub open spec fn converted(x: AnalogValue) -> int {
    x + 32768
}

impl UpD7002 {
    pub open spec fn status(self) -> u8 {
        (if self.busy { 0x80u8 } else { 0u8 }) | (self.control & 0x30) | (self.control & 0x04)
            | ((self.result_hi & 0xC0) >> 4)
    }

    pub open spec fn read_value(self, reg: u8) -> u8 {
        let r = reg % 4;
        if r == 0 {
            self.status()
        } else if r == 1 {
            self.result_hi
        } else if r == 2 {
            self.result_lo
        } else {
            self.control
        }
    }

    pub open spec fn after_write(self, reg: u8, value: u8) -> Self {
        let r = reg % 4;
        if r == 0 || r == 3 {
            UpD7002 {
                control: value,
                busy: true,
                cycles_remaining: conversion_cycles(value),
                ..self
            }
        } else {
            self
        }
    }

    /// State once the running conversion has completed: the addressed
    /// channel's converted value in the result registers, EOC flagged.
    pub open spec fn completed(self) -> Self {
        let v = converted(self.inputs@[(self.control % 4) as int]);
        UpD7002 {
            busy: false,
            cycles_remaining: 0,
            result_hi: (v / 256) as u8,
            result_lo: (v % 256) as u8,
            eoc_edge: true,
            ..self
        }
    }

    pub open spec fn ticked(self, cycles: u32) -> Self {
        if !self.busy {
            self
        } else if cycles >= self.cycles_remaining {
            self.completed()
        } else {
            UpD7002 { cycles_remaining: (self.cycles_remaining - cycles) as u32, ..self }
        }
    }

    pub fn new() -> (a: Self)
        ensures
            a.control == 0 && a.result_hi == 0 && a.result_lo == 0,
            !a.busy && a.cycles_remaining == 0 && !a.eoc_edge,
            a.inputs@ == Seq::new(4, |i: int| 0i16),
    {
        let a = UpD7002 {
            control: 0,
            result_hi: 0,
            result_lo: 0,
            busy: false,
            cycles_remaining: 0,
            inputs: [0i16; 4],
            eoc_edge: false,
        };
        assert(a.inputs@ =~= Seq::new(4, |i: int| 0i16));
        a
    }

    /// Set the analogue input of `channel` (0..=3); other channels ignored.
    pub fn set_input(&mut self, channel: usize, value: AnalogValue)
        ensures
            channel < 4 ==> *final(self) == (UpD7002 {
                inputs: final(self).inputs,
                ..*old(self)
            }) && final(self).inputs@ == old(self).inputs@.update(channel as int, value),
            channel >= 4 ==> *final(self) == *old(self),
    {
        if channel < 4 {
            self.inputs[channel] = value;
        }
    }

    /// Writing register 0 or 3 starts a conversion.
    pub fn write(&mut self, reg: u8, value: u8)
        ensures
            *final(self) == old(self).after_write(reg, value),
    {
        assert(reg & 0x03 == reg % 4) by {
            crate::bits::lemma_byte_fields(reg);
        }
        let r = reg & 0x03;
        if r == 0 || r == 3 {
            self.control = value;
            self.busy = true;
            let resolution_12 = value & 0x10 != 0;
            self.cycles_remaining = if resolution_12 { 20_000 } else { 8_000 };
        }
    }

    pub fn read(&mut self, reg: u8) -> (v: u8)
        ensures
            v == old(self).read_value(reg),
            *final(self) == *old(self),
    {
        assert(reg & 0x03 == reg % 4) by {
            crate::bits::lemma_byte_fields(reg);
        }
        let r = reg & 0x03;
        if r == 0 {
            let busy: u8 = if self.busy { 0x80 } else { 0 };
            busy | (self.control & 0x30) | (self.control & 0x04) | ((self.result_hi & 0xC0) >> 4)
        } else if r == 1 {
            self.result_hi
        } else if r == 2 {
            self.result_lo
        } else {
            self.control
        }
    }

    /// Advance a running conversion by `cycles` CPU clocks.
    pub fn tick(&mut self, cycles: u32)
        ensures
            *final(self) == old(self).ticked(cycles),
    {
        if !self.busy {
            return;
        }
        if cycles >= self.cycles_remaining {
            self.busy = false;
            self.cycles_remaining = 0;
            self.finish_conversion();
        } else {
            self.cycles_remaining = self.cycles_remaining - cycles;
        }
    }

    fn finish_conversion(&mut self)
        ensures
            ({
                let v = converted(old(self).inputs@[(old(self).control % 4) as int]);
                *final(self) == (UpD7002 {
                    result_hi: (v / 256) as u8,
                    result_lo: (v % 256) as u8,
                    eoc_edge: true,
                    ..*old(self)
                })
            }),
    {
        let c = self.control;
        assert(c & 0x03 == c % 4) by {
            crate::bits::lemma_byte_fields(c);
        }
        let channel = (self.control & 0x03) as usize;
        let signed = self.inputs[channel];
        let unsigned: u32 = (signed as i32 + 32768) as u32;
        let high = (unsigned / 256) as u8;
        let low = (unsigned % 256) as u8;
        self.result_hi = high;
        self.result_lo = low;
        self.eoc_edge = true;
    }

    /// True once per completed conversion (the EOC pulse); clears itself.
    pub fn poll_eoc_edge(&mut self) -> (e: bool)
        ensures
            e == old(self).eoc_edge,
            *final(self) == (UpD7002 { eoc_edge: false, ..*old(self) }),
    {
        let e = self.eoc_edge;
        self.eoc_edge = false;
        e
    }
}

/// Starting a conversion and letting at least its conversion time pass
/// leaves the addressed channel's input, offset to unsigned, in the result
/// registers (high byte, low byte), with the EOC pulse pending.
pub proof fn lemma_conversion_reads_back_input(adc: UpD7002, value: u8, cycles: u32)
    requires
        cycles >= conversion_cycles(value),
    ensures
        ({
            let done = adc.after_write(0, value).ticked(cycles);
            &&& done.read_value(1) as int * 256 + done.read_value(2) as int
                == converted(adc.inputs@[(value % 4) as int])
            &&& !done.busy
            &&& done.eoc_edge
        }),
{
}

/// Ticking `a` cycles and then `b` leaves the converter as ticking `a + b`
/// at once.
pub proof fn lemma_tick_additive(adc: UpD7002, a: u32, b: u32)
    requires
        a + b <= u32::MAX,
    ensures
        adc.ticked(a).ticked(b) == adc.ticked((a + b) as u32),
{
}

/// CPU cycles elapsed over a run of ticks.
pub open spec fn elapsed(cycles: Seq<u32>) -> int
    decreases cycles.len(),
{
    if cycles.len() == 0 {
        0
    } else {
        elapsed(cycles.drop_last()) + cycles.last()
    }
}

/// The converter after ticking each count of `cycles` in turn, polling the
/// end-of-conversion pulse after every tick; with what each poll returned.
pub open spec fn tick_and_poll(adc: UpD7002, cycles: Seq<u32>) -> (UpD7002, Seq<bool>)
    decreases cycles.len(),
{
    if cycles.len() == 0 {
        (adc, Seq::empty())
    } else {
        let (s, polls) = tick_and_poll(adc, cycles.drop_last());
        let t = s.ticked(cycles.last());
        (UpD7002 { eoc_edge: false, ..t }, polls.push(t.eoc_edge))
    }
}

proof fn lemma_elapsed_monotone(cycles: Seq<u32>, i: int, k: int)
    requires
        0 <= i <= k <= cycles.len(),
    ensures
        elapsed(cycles.take(i)) <= elapsed(cycles.take(k)),
    decreases k - i,
{
    if i < k {
        lemma_elapsed_monotone(cycles, i, k - 1);
        assert(cycles.take(k).drop_last() =~= cycles.take(k - 1));
    }
}

/// A running conversion with `cycles_remaining` left, ticked and polled
/// through `cycles`.
proof fn lemma_running_conversion(s: UpD7002, cycles: Seq<u32>)
    requires
        s.busy,
        s.cycles_remaining > 0,
        !s.eoc_edge,
    ensures
        ({
            let (fin, polls) = tick_and_poll(s, cycles);
            let n = s.cycles_remaining as int;
            &&& polls.len() == cycles.len()
            &&& forall|k: int|
                0 <= k < cycles.len() ==> (#[trigger] polls[k] <==> (elapsed(cycles.take(k)) < n
                    <= elapsed(cycles.take(k + 1))))
            &&& fin.busy <==> elapsed(cycles) < n
            &&& fin.busy ==> fin.cycles_remaining == n - elapsed(cycles)
            &&& !fin.busy ==> fin == (UpD7002 { eoc_edge: false, ..s.completed() })
            &&& fin.busy ==> fin == (UpD7002 { cycles_remaining: fin.cycles_remaining, ..s })
            &&& elapsed(cycles) >= n ==> exists|k: int| 0 <= k < cycles.len() && #[trigger] polls[k]
        }),
    decreases cycles.len(),
{
    if cycles.len() > 0 {
        let pre = cycles.drop_last();
        lemma_running_conversion(s, pre);
        let (sp, pp) = tick_and_poll(s, pre);
        let (fin, polls) = tick_and_poll(s, cycles);
        let last = (cycles.len() - 1) as int;
        assert(cycles.take(last) =~= pre);
        assert(cycles.take(last + 1) =~= cycles);
        assert forall|k: int| 0 <= k < cycles.len() implies (#[trigger] polls[k] <==> (elapsed(
            cycles.take(k),
        ) < s.cycles_remaining <= elapsed(cycles.take(k + 1)))) by {
            if k < last {
                assert(cycles.take(k) =~= pre.take(k));
                assert(cycles.take(k + 1) =~= pre.take(k + 1));
                assert(polls[k] == pp[k]);
            }
        }
        if elapsed(pre) >= s.cycles_remaining {
            let w = choose|k: int| 0 <= k < pre.len() && #[trigger] pp[k];
            assert(polls[w] == pp[w]);
        } else if elapsed(cycles) >= s.cycles_remaining {
            assert(polls[last]);
        }
    }
}

/// Once a write to register 0 or 3 starts a conversion, ticking it through
/// `cycles` and polling the end-of-conversion pulse after each tick:
/// the converter stays busy exactly while fewer than its conversion time
/// of cycles have passed, and the pulse is seen once, at the first poll
/// after that time is reached; the result then holds the addressed
/// channel's converted input. (A pulse left pending from an earlier
/// conversion would show at the first poll, so none may be pending.)
pub proof fn lemma_conversion_completes_once(adc: UpD7002, reg: u8, value: u8, cycles: Seq<u32>)
    requires
        reg % 4 == 0 || reg % 4 == 3,
        !adc.eoc_edge,
    ensures
        ({
            let (fin, polls) = tick_and_poll(adc.after_write(reg, value), cycles);
            let n = conversion_cycles(value) as int;
            let v = converted(adc.inputs@[(value % 4) as int]);
            &&& polls.len() == cycles.len()
            &&& forall|k: int|
                0 <= k < cycles.len() ==> (#[trigger] polls[k] <==> (elapsed(cycles.take(k)) < n
                    <= elapsed(cycles.take(k + 1))))
            &&& forall|j: int, k: int|
                0 <= j < cycles.len() && 0 <= k < cycles.len() && #[trigger] polls[j]
                    && #[trigger] polls[k] ==> j == k
            &&& (exists|k: int| 0 <= k < cycles.len() && #[trigger] polls[k]) <==> elapsed(cycles)
                >= n
            &&& fin.busy <==> elapsed(cycles) < n
            &&& fin.busy ==> fin.cycles_remaining == n - elapsed(cycles)
            &&& !fin.busy ==> fin.result_hi == v / 256 && fin.result_lo == v % 256
            &&& !fin.eoc_edge
            &&& fin.control == value
            &&& fin.inputs == adc.inputs
        }),
{
    let s = adc.after_write(reg, value);
    lemma_running_conversion(s, cycles);
    let (fin, polls) = tick_and_poll(s, cycles);
    let n = conversion_cycles(value) as int;
    assert forall|j: int, k: int|
        0 <= j < cycles.len() && 0 <= k < cycles.len() && #[trigger] polls[j]
            && #[trigger] polls[k] implies j == k by {
        if j < k {
            lemma_elapsed_monotone(cycles, j + 1, k);
        } else if k < j {
            lemma_elapsed_monotone(cycles, k + 1, j);
        }
    }
    if exists|k: int| 0 <= k < cycles.len() && #[trigger] polls[k] {
        let w = choose|k: int| 0 <= k < cycles.len() && #[trigger] polls[k];
        lemma_elapsed_monotone(cycles, w + 1, cycles.len() as int);
        assert(cycles.take(cycles.len() as int) =~= cycles);
    }
    if cycles.len() == 0 {
        assert(fin == s);
    }
}

/// Ticks on an idle converter with no pulse pending change nothing, and
/// every poll reads false.
pub proof fn lemma_idle_ticks_change_nothing(adc: UpD7002, cycles: Seq<u32>)
    requires
        !adc.busy,
        !adc.eoc_edge,
    ensures
        tick_and_poll(adc, cycles) == (adc, Seq::new(cycles.len(), |i: int| false)),
    decreases cycles.len(),
{
    if cycles.len() > 0 {
        lemma_idle_ticks_change_nothing(adc, cycles.drop_last());
        let (s, polls) = tick_and_poll(adc, cycles);
        assert(polls =~= Seq::new(cycles.len(), |i: int| false));
    }
}

} // verus!
