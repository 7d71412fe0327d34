//! Generic Rockwell/Synertek 6522 Versatile Interface Adapter.
//!
//! Modelled: ports A and B with data-direction registers, Timer 1
//! (one-shot / free-running), Timer 2 (one-shot interval mode), the
//! interrupt flag / enable registers, and edge detection on CA1/CB1/CA2/CB2.
//! The shift register and pulse-counting mode are not modelled.
//!
//! Register offsets (from the chip's base address, mirrored every 16):
//!
//! ```text
//!   0 IRB/ORB   1 IRA/ORA   2 DDRB   3 DDRA
//!   4 T1C-L     5 T1C-H     6 T1L-L  7 T1L-H
//!   8 T2C-L     9 T2C-H    10 SR    11 ACR
//!  12 PCR      13 IFR      14 IER   15 ORA (no handshake)
//! ```
use vstd::prelude::*;

verus! {

pub const IFR_CA2: u8 = 0x01;
pub const IFR_CA1: u8 = 0x02;
pub const IFR_SR: u8 = 0x04;
pub const IFR_CB2: u8 = 0x08;
pub const IFR_CB1: u8 = 0x10;
pub const IFR_T2: u8 = 0x20;
pub const IFR_T1: u8 = 0x40;
pub const IFR_ANY: u8 = 0x80;

pub struct Via6522 {
    pub ora: u8,
    pub orb: u8,
    /// Input lines of port A / port B (peripherals drive these).
    pub ira: u8,
    pub irb: u8,
    pub ddra: u8,
    pub ddrb: u8,
    pub acr: u8,
    pub pcr: u8,
    pub ifr: u8,
    pub ier: u8,
    pub t1_counter: u16,
    pub t1_latch: u16,
    pub t1_running: bool,
    pub t2_counter: u16,
    pub t2_latch_lo: u8,
    pub t2_running: bool,
    /// Last sampled levels of the control lines, for edge detection.
    pub last_ca1: bool,
    pub last_cb1: bool,
    pub last_ca2: bool,
    pub last_cb2: bool,
    /// Carry of an odd CPU cycle: the chip is clocked at half the CPU rate.
    pub pending_half: u8,
}

/// True when an interrupt source is both flagged and enabled.
pub open spec fn irq_pending(ifr: u8, ier: u8) -> bool {
    ifr & ier & 0x7F != 0
}

/// The level a port pin presents: output latch where the DDR bit is set,
/// input line elsewhere.
pub open spec fn port_value(out: u8, inp: u8, ddr: u8) -> u8 {
    (out & ddr) | (inp & !ddr)
}

/// Whether a control-line transition `last -> level` is an active edge;
/// `rising` selects the polarity.
pub open spec fn active_edge(rising: bool, last: bool, level: bool) -> bool {
    if rising {
        !last && level
    } else {
        last && !level
    }
}

impl Via6522 {
    pub open spec fn pending_irq(self) -> bool {
        irq_pending(self.ifr, self.ier)
    }

    /// The power-on state: every register and counter zero.
    pub open spec fn is_reset(self) -> bool {
        &&& self.ora == 0 && self.orb == 0 && self.ira == 0 && self.irb == 0
        &&& self.ddra == 0 && self.ddrb == 0 && self.acr == 0 && self.pcr == 0
        &&& self.ifr == 0 && self.ier == 0
        &&& self.t1_counter == 0 && self.t1_latch == 0 && !self.t1_running
        &&& self.t2_counter == 0 && self.t2_latch_lo == 0 && !self.t2_running
        &&& !self.last_ca1 && !self.last_cb1 && !self.last_ca2 && !self.last_cb2
        &&& self.pending_half == 0
    }

    pub open spec fn with_ifr_cleared(self, mask: u8) -> Self {
        Via6522 { ifr: self.ifr & !(mask & 0x7F), ..self }
    }

    pub open spec fn with_ifr_set(self, mask: u8) -> Self {
        Via6522 { ifr: self.ifr | (mask & 0x7F), ..self }
    }

    /// Value returned by a read of register `reg` (low four bits decode).
    pub open spec fn read_value(self, reg: u8) -> u8 {
        let r = reg & 0x0F;
        if r == 0 {
            port_value(self.orb, self.irb, self.ddrb)
        } else if r == 1 || r == 15 {
            port_value(self.ora, self.ira, self.ddra)
        } else if r == 2 {
            self.ddrb
        } else if r == 3 {
            self.ddra
        } else if r == 4 {
            self.t1_counter as u8
        } else if r == 5 {
            (self.t1_counter >> 8) as u8
        } else if r == 6 {
            self.t1_latch as u8
        } else if r == 7 {
            (self.t1_latch >> 8) as u8
        } else if r == 8 {
            self.t2_counter as u8
        } else if r == 9 {
            (self.t2_counter >> 8) as u8
        } else if r == 10 {
            0
        } else if r == 11 {
            self.acr
        } else if r == 12 {
            self.pcr
        } else if r == 13 {
            if self.pending_irq() { self.ifr | IFR_ANY } else { self.ifr }
        } else {
            self.ier | 0x80
        }
    }

    /// State after a read of register `reg`: reading a port clears its
    /// control-line flags, reading a timer's low counter clears its flag.
    pub open spec fn after_read(self, reg: u8) -> Self {
        let r = reg & 0x0F;
        if r == 0 {
            self.with_ifr_cleared(IFR_CB1 | IFR_CB2)
        } else if r == 1 {
            self.with_ifr_cleared(IFR_CA1 | IFR_CA2)
        } else if r == 4 {
            self.with_ifr_cleared(IFR_T1)
        } else if r == 8 {
            self.with_ifr_cleared(IFR_T2)
        } else {
            self
        }
    }

    /// State after writing `value` to register `reg`.
    pub open spec fn after_write(self, reg: u8, value: u8) -> Self {
        let r = reg & 0x0F;
        if r == 0 {
            Via6522 { orb: value, ..self }.with_ifr_cleared(IFR_CB1 | IFR_CB2)
        } else if r == 1 {
            Via6522 { ora: value, ..self }.with_ifr_cleared(IFR_CA1 | IFR_CA2)
        } else if r == 2 {
            Via6522 { ddrb: value, ..self }
        } else if r == 3 {
            Via6522 { ddra: value, ..self }
        } else if r == 4 || r == 6 {
            Via6522 { t1_latch: (self.t1_latch & 0xFF00) | (value as u16), ..self }
        } else if r == 5 {
            let latch = (self.t1_latch & 0x00FF) | ((value as u16) << 8);
            Via6522 {
                t1_latch: latch,
                t1_counter: latch,
                t1_running: true,
                ..self
            }.with_ifr_cleared(IFR_T1)
        } else if r == 7 {
            Via6522 {
                t1_latch: (self.t1_latch & 0x00FF) | ((value as u16) << 8),
                ..self
            }.with_ifr_cleared(IFR_T1)
        } else if r == 8 {
            Via6522 { t2_latch_lo: value, ..self }
        } else if r == 9 {
            Via6522 {
                t2_counter: ((value as u16) << 8) | (self.t2_latch_lo as u16),
                t2_running: true,
                ..self
            }.with_ifr_cleared(IFR_T2)
        } else if r == 11 {
            Via6522 { acr: value, ..self }
        } else if r == 12 {
            Via6522 { pcr: value, ..self }
        } else if r == 13 {
            Via6522 { ifr: self.ifr & !(value & 0x7F), ..self }
        } else if r == 14 {
            if value & 0x80 != 0 {
                Via6522 { ier: self.ier | (value & 0x7F), ..self }
            } else {
                Via6522 { ier: self.ier & !(value & 0x7F), ..self }
            }
        } else if r == 15 {
            Via6522 { ora: value, ..self }
        } else {
            self
        }
    }

    /// Timer 1 for one Φ2 clock: at zero it flags its interrupt and either
    /// reloads (free-run, ACR bit 6) or stops; otherwise it counts down.
    pub open spec fn t1_step(self) -> Self {
        if !self.t1_running {
            self
        } else if self.t1_counter == 0 {
            let v = self.with_ifr_set(IFR_T1);
            if self.acr & 0x40 != 0 {
                Via6522 { t1_counter: self.t1_latch, ..v }
            } else {
                Via6522 { t1_running: false, ..v }
            }
        } else {
            Via6522 { t1_counter: (self.t1_counter - 1) as u16, ..self }
        }
    }

    /// Timer 2 for one Φ2 clock (interval mode only, ACR bit 5 clear):
    /// at zero it flags its interrupt and stops, otherwise counts down.
    pub open spec fn t2_step(self) -> Self {
        if !self.t2_running || self.acr & 0x20 != 0 {
            self
        } else if self.t2_counter == 0 {
            Via6522 { t2_running: false, ..self.with_ifr_set(IFR_T2) }
        } else {
            Via6522 { t2_counter: (self.t2_counter - 1) as u16, ..self }
        }
    }

    /// One Φ2 clock of both timers.
    pub open spec fn phi2_step(self) -> Self {
        self.t1_step().t2_step()
    }

    /// `n` Φ2 clocks.
    pub open spec fn phi2_steps(self, n: nat) -> Self
        decreases n,
    {
        if n == 0 {
            self
        } else {
            self.phi2_steps((n - 1) as nat).phi2_step()
        }
    }

    /// Result of `tick(cycles)`: `(cycles + carry) / 2` Φ2 clocks, with the
    /// odd cycle carried over.
    pub open spec fn ticked(self, cycles: u32) -> Self {
        let total = cycles + self.pending_half;
        Via6522 { pending_half: (total % 2) as u8, ..self }.phi2_steps((total / 2) as nat)
    }

    pub open spec fn with_ca1(self, level: bool) -> Self {
        let fired = active_edge(self.pcr & 0x01 != 0, self.last_ca1, level);
        let v = if fired { self.with_ifr_set(IFR_CA1) } else { self };
        Via6522 { last_ca1: level, ..v }
    }

    pub open spec fn with_cb1(self, level: bool) -> Self {
        let fired = active_edge(self.pcr & 0x10 != 0, self.last_cb1, level);
        let v = if fired { self.with_ifr_set(IFR_CB1) } else { self };
        Via6522 { last_cb1: level, ..v }
    }

    /// CA2 only senses edges while configured as an input (PCR bit 3 clear).
    pub open spec fn with_ca2(self, level: bool) -> Self {
        let fired = self.pcr & 0x08 == 0 && active_edge(
            self.pcr & 0x04 != 0,
            self.last_ca2,
            level,
        );
        let v = if fired { self.with_ifr_set(IFR_CA2) } else { self };
        Via6522 { last_ca2: level, ..v }
    }

    /// CB2 only senses edges while configured as an input (PCR bit 7 clear).
    pub open spec fn with_cb2(self, level: bool) -> Self {
        let fired = self.pcr & 0x80 == 0 && active_edge(
            self.pcr & 0x40 != 0,
            self.last_cb2,
            level,
        );
        let v = if fired { self.with_ifr_set(IFR_CB2) } else { self };
        Via6522 { last_cb2: level, ..v }
    }

    pub fn new() -> (v: Self)
        ensures
            v.is_reset(),
    {
        Via6522 {
            ora: 0,
            orb: 0,
            ira: 0,
            irb: 0,
            ddra: 0,
            ddrb: 0,
            acr: 0,
            pcr: 0,
            ifr: 0,
            ier: 0,
            t1_counter: 0,
            t1_latch: 0,
            t1_running: false,
            t2_counter: 0,
            t2_latch_lo: 0,
            t2_running: false,
            last_ca1: false,
            last_cb1: false,
            last_ca2: false,
            last_cb2: false,
            pending_half: 0,
        }
    }

    fn set_ifr(&mut self, mask: u8)
        ensures
            *final(self) == old(self).with_ifr_set(mask),
    {
        self.ifr = self.ifr | (mask & 0x7F);
    }

    fn clear_ifr(&mut self, mask: u8)
        ensures
            *final(self) == old(self).with_ifr_cleared(mask),
    {
        self.ifr = self.ifr & !(mask & 0x7F);
    }

    pub fn read(&mut self, reg: u8) -> (value: u8)
        ensures
            value == old(self).read_value(reg),
            *final(self) == old(self).after_read(reg),
    {
        let r = reg & 0x0F;
        assert(r <= 15) by (bit_vector)
            requires
                r == reg & 0x0F,
        ;
        if r == 0 {
            self.clear_ifr(IFR_CB1 | IFR_CB2);
            (self.orb & self.ddrb) | (self.irb & !self.ddrb)
        } else if r == 1 {
            self.clear_ifr(IFR_CA1 | IFR_CA2);
            (self.ora & self.ddra) | (self.ira & !self.ddra)
        } else if r == 2 {
            self.ddrb
        } else if r == 3 {
            self.ddra
        } else if r == 4 {
            let v = self.t1_counter as u8;
            self.clear_ifr(IFR_T1);
            v
        } else if r == 5 {
            (self.t1_counter >> 8) as u8
        } else if r == 6 {
            self.t1_latch as u8
        } else if r == 7 {
            (self.t1_latch >> 8) as u8
        } else if r == 8 {
            let v = self.t2_counter as u8;
            self.clear_ifr(IFR_T2);
            v
        } else if r == 9 {
            (self.t2_counter >> 8) as u8
        } else if r == 10 {
            0
        } else if r == 11 {
            self.acr
        } else if r == 12 {
            self.pcr
        } else if r == 13 {
            self.ifr_with_any()
        } else if r == 14 {
            self.ier | 0x80
        } else {
            (self.ora & self.ddra) | (self.ira & !self.ddra)
        }
    }

    pub fn write(&mut self, reg: u8, value: u8)
        ensures
            *final(self) == old(self).after_write(reg, value),
    {
        let r = reg & 0x0F;
        if r == 0 {
            self.orb = value;
            self.clear_ifr(IFR_CB1 | IFR_CB2);
        } else if r == 1 {
            self.ora = value;
            self.clear_ifr(IFR_CA1 | IFR_CA2);
        } else if r == 2 {
            self.ddrb = value;
        } else if r == 3 {
            self.ddra = value;
        } else if r == 4 || r == 6 {
            self.t1_latch = (self.t1_latch & 0xFF00) | (value as u16);
        } else if r == 5 {
            self.t1_latch = (self.t1_latch & 0x00FF) | ((value as u16) << 8);
            self.t1_counter = self.t1_latch;
            self.t1_running = true;
            self.clear_ifr(IFR_T1);
        } else if r == 7 {
            self.t1_latch = (self.t1_latch & 0x00FF) | ((value as u16) << 8);
            self.clear_ifr(IFR_T1);
        } else if r == 8 {
            self.t2_latch_lo = value;
        } else if r == 9 {
            self.t2_counter = ((value as u16) << 8) | (self.t2_latch_lo as u16);
            self.t2_running = true;
            self.clear_ifr(IFR_T2);
        } else if r == 11 {
            self.acr = value;
        } else if r == 12 {
            self.pcr = value;
        } else if r == 13 {
            self.ifr = self.ifr & !(value & 0x7F);
        } else if r == 14 {
            if value & 0x80 != 0 {
                self.ier = self.ier | (value & 0x7F);
            } else {
                self.ier = self.ier & !(value & 0x7F);
            }
        } else if r == 15 {
            self.ora = value;
        }
    }

    fn phi2_clock(&mut self)
        ensures
            *final(self) == old(self).phi2_step(),
    {
        if self.t1_running {
            if self.t1_counter == 0 {
                self.set_ifr(IFR_T1);
                if self.acr & 0x40 != 0 {
                    self.t1_counter = self.t1_latch;
                } else {
                    self.t1_running = false;
                }
            } else {
                self.t1_counter = self.t1_counter - 1;
            }
        }
        if self.t2_running && (self.acr & 0x20) == 0 {
            if self.t2_counter == 0 {
                self.set_ifr(IFR_T2);
                self.t2_running = false;
            } else {
                self.t2_counter = self.t2_counter - 1;
            }
        }
    }

    /// Advance the timers by `cycles` CPU clocks (2 MHz); the chip counts at
    /// 1 MHz, one Φ2 clock per two CPU cycles. Returns true when this call
    /// raised the IRQ output.
    pub fn tick(&mut self, cycles: u32) -> (raised: bool)
        ensures
            *final(self) == old(self).ticked(cycles),
            raised == (!old(self).pending_irq() && final(self).pending_irq()),
    {
        let before = self.has_pending_irq();
        let total: u64 = cycles as u64 + self.pending_half as u64;
        let ticks: u64 = total / 2;
        self.pending_half = (total % 2) as u8;
        let ghost start = *self;
        let mut i: u64 = 0;
        while i < ticks
            invariant
                i <= ticks,
                *self == start.phi2_steps(i as nat),
            decreases ticks - i,
        {
            self.phi2_clock();
            i = i + 1;
        }
        let after = self.has_pending_irq();
        !before && after
    }

    /// Drive the CA1 input; PCR bit 0 selects the active edge (1 = rising).
    pub fn set_ca1(&mut self, level: bool)
        ensures
            *final(self) == old(self).with_ca1(level),
    {
        let edge_rising = self.pcr & 0x01 != 0;
        let triggered = if edge_rising {
            !self.last_ca1 && level
        } else {
            self.last_ca1 && !level
        };
        if triggered {
            self.set_ifr(IFR_CA1);
        }
        self.last_ca1 = level;
    }

    /// Drive the CB1 input; PCR bit 4 selects the active edge (1 = rising).
    pub fn set_cb1(&mut self, level: bool)
        ensures
            *final(self) == old(self).with_cb1(level),
    {
        let edge_rising = self.pcr & 0x10 != 0;
        let triggered = if edge_rising {
            !self.last_cb1 && level
        } else {
            self.last_cb1 && !level
        };
        if triggered {
            self.set_ifr(IFR_CB1);
        }
        self.last_cb1 = level;
    }

    /// Drive the CA2 input; edges count only while PCR bit 3 is clear.
    pub fn set_ca2(&mut self, level: bool)
        ensures
            *final(self) == old(self).with_ca2(level),
    {
        if self.pcr & 0x08 == 0 {
            let edge_rising = self.pcr & 0x04 != 0;
            let triggered = if edge_rising {
                !self.last_ca2 && level
            } else {
                self.last_ca2 && !level
            };
            if triggered {
                self.set_ifr(IFR_CA2);
            }
        }
        self.last_ca2 = level;
    }

    /// Drive the CB2 input; edges count only while PCR bit 7 is clear.
    pub fn set_cb2(&mut self, level: bool)
        ensures
            *final(self) == old(self).with_cb2(level),
    {
        if self.pcr & 0x80 == 0 {
            let edge_rising = self.pcr & 0x40 != 0;
            let triggered = if edge_rising {
                !self.last_cb2 && level
            } else {
                self.last_cb2 && !level
            };
            if triggered {
                self.set_ifr(IFR_CB2);
            }
        }
        self.last_cb2 = level;
    }

    pub fn has_pending_irq(&self) -> (b: bool)
        ensures
            b == self.pending_irq(),
    {
        self.ifr & self.ier & 0x7F != 0
    }

    fn ifr_with_any(&self) -> (v: u8)
        ensures
            v == (if self.pending_irq() { self.ifr | IFR_ANY } else { self.ifr }),
    {
        let mut v = self.ifr;
        if self.has_pending_irq() {
            v = v | IFR_ANY;
        }
        v
    }
}

/// The Φ2 clocks do not look at the carried half cycle.
proof fn lemma_phi2_steps_with_half(v: Via6522, h: u8, n: nat)
    ensures
        (Via6522 { pending_half: h, ..v }).phi2_steps(n) == (Via6522 {
            pending_half: h,
            ..v.phi2_steps(n)
        }),
    decreases n,
{
    if n > 0 {
        lemma_phi2_steps_with_half(v, h, (n - 1) as nat);
    }
}

/// `m` Φ2 clocks followed by `n` more are `m + n` clocks.
proof fn lemma_phi2_steps_add(v: Via6522, m: nat, n: nat)
    ensures
        v.phi2_steps(m).phi2_steps(n) == v.phi2_steps(m + n),
    decreases n,
{
    if n > 0 {
        lemma_phi2_steps_add(v, m, (n - 1) as nat);
    }
}

/// Ticking `a` CPU cycles and then `b` leaves the VIA as ticking `a + b`
/// at once: the odd cycle is carried, none is lost between calls.
pub proof fn lemma_tick_additive(v: Via6522, a: u32, b: u32)
    requires
        v.pending_half < 2,
        a + b <= u32::MAX,
    ensures
        v.ticked(a).ticked(b) == v.ticked((a + b) as u32),
{
    let p = v.pending_half;
    let t1 = a + p;
    let p1 = (t1 % 2) as u8;
    let s1 = (t1 / 2) as nat;
    let t2 = b + p1;
    let p2 = (t2 % 2) as u8;
    let s2 = (t2 / 2) as nat;
    let w = Via6522 { pending_half: p1, ..v };
    lemma_phi2_steps_with_half(v, p1, s1);
    let v1 = v.ticked(a);
    assert(v1 == Via6522 { pending_half: p1, ..v.phi2_steps(s1) });
    lemma_phi2_steps_with_half(v.phi2_steps(s1), p2, s2);
    lemma_phi2_steps_with_half(v, p2, s1);
    lemma_phi2_steps_with_half(Via6522 { pending_half: p2, ..v }, p2, s1);
    lemma_phi2_steps_add(Via6522 { pending_half: p2, ..v }, s1, s2);
    assert(Via6522 { pending_half: p2, ..v1 } == Via6522 { pending_half: p2, ..v.phi2_steps(s1) });
    assert(s1 + s2 == (a + b + p) / 2);
    assert(p2 == (a + b + p) % 2);
}

/// Writing a timer's low byte and then its high byte loads the counter with
/// the 16-bit value they form, which the two counter registers read back;
/// the timer runs with its interrupt flag clear.
pub proof fn lemma_timer_load(v: Via6522, lo: u8, hi: u8)
    ensures
        ({
            let w = v.after_write(8, lo).after_write(9, hi);
            &&& w.t2_counter == hi * 256 + lo
            &&& w.read_value(8) == lo && w.read_value(9) == hi
            &&& w.t2_running && w.ifr & IFR_T2 == 0
        }),
        ({
            let w = v.after_write(4, lo).after_write(5, hi);
            &&& w.t1_counter == hi * 256 + lo && w.t1_latch == hi * 256 + lo
            &&& w.read_value(4) == lo && w.read_value(5) == hi
            &&& w.t1_running && w.ifr & IFR_T1 == 0
        }),
{
    assert(8u8 & 0x0F == 8 && 9u8 & 0x0F == 9 && 4u8 & 0x0F == 4 && 5u8 & 0x0F == 5) by (bit_vector);
    let c: u16 = ((hi as u16) << 8) | (lo as u16);
    let l: u16 = (((v.t1_latch & 0xFF00) | (lo as u16)) & 0x00FF) | ((hi as u16) << 8);
    let t = v.t1_latch;
    assert(c == hi * 256 + lo && c as u8 == lo && (c >> 8) as u8 == hi && l == c) by (bit_vector)
        requires
            c == ((hi as u16) << 8) | (lo as u16),
            l == (((t & 0xFF00) | (lo as u16)) & 0x00FF) | ((hi as u16) << 8),
    ;
    let f = v.ifr;
    assert((f & !(0x20u8 & 0x7F)) & 0x20 == 0 && (f & !(0x40u8 & 0x7F)) & 0x40 == 0) by (bit_vector);
}

/// Registers read back what was written: the data-direction registers,
/// ACR and PCR as written; T1's latch as written through registers 6 and 7;
/// a port whose lines are all outputs gives back its output register;
/// IER reads back with bit 7 set.
pub proof fn lemma_register_read_back(v: Via6522, x: u8, y: u8)
    ensures
        v.after_write(2, x).read_value(2) == x,
        v.after_write(3, x).read_value(3) == x,
        v.after_write(11, x).read_value(11) == x,
        v.after_write(12, x).read_value(12) == x,
        v.after_write(6, x).after_write(7, y).read_value(6) == x,
        v.after_write(6, x).after_write(7, y).read_value(7) == y,
        v.after_write(2, 0xFF).after_write(0, x).read_value(0) == x,
        v.after_write(3, 0xFF).after_write(1, x).read_value(1) == x,
        v.after_write(14, x).read_value(14) == v.after_write(14, x).ier | 0x80,
{
    assert(2u8 & 0x0F == 2 && 3u8 & 0x0F == 3 && 11u8 & 0x0F == 11 && 12u8 & 0x0F == 12 && 6u8
        & 0x0F == 6 && 7u8 & 0x0F == 7 && 0u8 & 0x0F == 0 && 1u8 & 0x0F == 1 && 14u8 & 0x0F == 14)
        by (bit_vector);
    let t = v.t1_latch;
    let l: u16 = (((t & 0xFF00) | (x as u16)) & 0x00FF) | ((y as u16) << 8);
    assert(l as u8 == x && (l >> 8) as u8 == y) by (bit_vector)
        requires
            l == (((t & 0xFF00) | (x as u16)) & 0x00FF) | ((y as u16) << 8),
    ;
    let (ib, ia) = (v.irb, v.ira);
    assert((x & 0xFF) | (ib & !0xFFu8) == x && (x & 0xFF) | (ia & !0xFFu8) == x) by (bit_vector);
}

/// Writing IER with bit 7 set enables the interrupts whose bits are set in
/// the value, with bit 7 clear disables them; other enables are kept.
/// Writing IFR clears the flags whose bits are set and keeps the others.
pub proof fn lemma_ier_ifr_writes(v: Via6522, x: u8, i: u8)
    requires
        i < 7,
    ensures
        ({
            let bit = 1u8 << i;
            let e = v.after_write(14, x).ier;
            &&& x & bit != 0 ==> (e & bit != 0 <==> x & 0x80 != 0)
            &&& x & bit == 0 ==> (e & bit == v.ier & bit)
        }),
        ({
            let bit = 1u8 << i;
            let f = v.after_write(13, x).ifr;
            &&& x & bit != 0 ==> f & bit == 0
            &&& x & bit == 0 ==> f & bit == v.ifr & bit
        }),
{
    assert(14u8 & 0x0F == 14 && 13u8 & 0x0F == 13) by (bit_vector);
    let (ier, ifr) = (v.ier, v.ifr);
    assert({
        let bit = 1u8 << i;
        &&& (x & bit != 0 ==> (((ier | (x & 0x7F)) & bit != 0) && ((ier & !(x & 0x7F)) & bit == 0)))
        &&& (x & bit == 0 ==> ((ier | (x & 0x7F)) & bit == ier & bit) && ((ier & !(x & 0x7F)) & bit
            == ier & bit))
        &&& (x & bit != 0 ==> (ifr & !(x & 0x7F)) & bit == 0)
        &&& (x & bit == 0 ==> (ifr & !(x & 0x7F)) & bit == ifr & bit)
    }) by (bit_vector)
        requires
            i < 7,
    ;
}

} // verus!
