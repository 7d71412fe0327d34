//! Acorn Tube ULA: four FIFO channels in each direction between the host
//! 6502 and a second ("parasite") processor, with status bytes (bit 7 data
//! available on this side, bit 6 room on the other side) and a control
//! register whose bit 7 resets every FIFO. R3 is 24 bytes deep, the others
//! hold one byte. A parasite's own 64 KiB memory is `Parasite`.
use vstd::prelude::*;
use std::collections::VecDeque;

verus! {

/// Parasite RAM size: 64 KiB on every Acorn second processor.
pub const PARASITE_RAM_SIZE: usize = 0x10000;

const FIFO_DEPTH_R1_R4: usize = 1;
const FIFO_DEPTH_R3: usize = 24;
const FIFO_DEPTH_R2: usize = 1;

/// Abstract Tube state: the four host-to-parasite and four
/// parasite-to-host queues (channel 0 is R1 .. channel 3 is R4), the
/// control byte and the two pending interrupt flags.
pub ghost struct TubeState {
    pub h2p: Seq<Seq<u8>>,
    pub p2h: Seq<Seq<u8>>,
    pub control: u8,
    pub host_irq: bool,
    pub parasite_irq: bool,
}

/// Capacity of channel `ch` (R3 buffers 24 bytes, the others one).
pub open spec fn depth(ch: int) -> nat {
    if ch == 2 { 24 } else { 1 }
}

/// Channel addressed by a data register (1, 3, 5, 7 -> R1..R4).
pub open spec fn channel(reg: u8) -> int {
    ((reg % 8) / 2) as int
}

/// Status byte: bit 7 when `this_side` holds data, bit 6 when `other_side`
/// has room.
pub open spec fn fifo_status(this_side: Seq<u8>, other_side: Seq<u8>, depth: nat) -> u8 {
    (if this_side.len() > 0 { 0x80u8 } else { 0u8 }) | (if other_side.len() < depth {
        0x40u8
    } else {
        0u8
    })
}

/// Oldest byte of a queue, or 0 when it is empty.
pub open spec fn front_or_zero(q: Seq<u8>) -> u8 {
    if q.len() > 0 { q[0] } else { 0 }
}

/// The queue after one read: its oldest byte removed, if any.
pub open spec fn popped(q: Seq<u8>) -> Seq<u8> {
    if q.len() > 0 { q.drop_first() } else { q }
}

/// The queue after a write of `value`: appended when there is room.
pub open spec fn pushed(q: Seq<u8>, value: u8, depth: nat) -> Seq<u8> {
    if q.len() < depth { q.push(value) } else { q }
}

impl TubeState {
    /// Every queue is within its channel's depth.
    pub open spec fn wf(self) -> bool {
        &&& self.h2p.len() == 4
        &&& self.p2h.len() == 4
        &&& forall|ch: int| 0 <= ch < 4 ==> #[trigger] self.h2p[ch].len() <= depth(ch)
        &&& forall|ch: int| 0 <= ch < 4 ==> #[trigger] self.p2h[ch].len() <= depth(ch)
    }

    /// Power-on state: all queues empty, control 0, no interrupt pending.
    pub open spec fn initial() -> Self {
        TubeState {
            h2p: seq![Seq::empty(), Seq::empty(), Seq::empty(), Seq::empty()],
            p2h: seq![Seq::empty(), Seq::empty(), Seq::empty(), Seq::empty()],
            control: 0,
            host_irq: false,
            parasite_irq: false,
        }
    }

    /// Interrupt flags latched from the queues: the host is interrupted by
    /// data waiting in R1 (control bit 5) or R4 (bit 4), the parasite by
    /// data in R1 (bit 1) or R4 (bit 0). Latched flags stay set.
    pub open spec fn refreshed(self) -> Self {
        let h = (self.control & 0x20 != 0 && self.p2h[0].len() > 0) || (self.control & 0x10 != 0
            && self.p2h[3].len() > 0);
        let p = (self.control & 0x02 != 0 && self.h2p[0].len() > 0) || (self.control & 0x01 != 0
            && self.h2p[3].len() > 0);
        TubeState {
            host_irq: self.host_irq || h,
            parasite_irq: self.parasite_irq || p,
            ..self
        }
    }

    /// Value the host reads from register `reg`: a status byte for even
    /// registers (R1's also carries control bits 5-0), else the oldest byte
    /// from the parasite, or 0.
    pub open spec fn host_read_value(self, reg: u8) -> u8 {
        let r = reg % 8;
        let ch = channel(reg);
        if r == 0 {
            fifo_status(self.p2h[0], self.h2p[0], 1) | (self.control & 0x3F)
        } else if r % 2 == 0 {
            fifo_status(self.p2h[ch], self.h2p[ch], depth(ch))
        } else {
            front_or_zero(self.p2h[ch])
        }
    }

    /// State after a host read: data reads consume a byte.
    pub open spec fn after_host_read(self, reg: u8) -> Self {
        let ch = channel(reg);
        if reg % 2 == 1 {
            TubeState { p2h: self.p2h.update(ch, popped(self.p2h[ch])), ..self }
        } else {
            self
        }
    }

    /// Value the parasite reads from register `reg`.
    pub open spec fn parasite_read_value(self, reg: u8) -> u8 {
        let ch = channel(reg);
        if reg % 2 == 0 {
            fifo_status(self.h2p[ch], self.p2h[ch], depth(ch))
        } else {
            front_or_zero(self.h2p[ch])
        }
    }

    /// State after a parasite read.
    pub open spec fn after_parasite_read(self, reg: u8) -> Self {
        let ch = channel(reg);
        if reg % 2 == 1 {
            TubeState { h2p: self.h2p.update(ch, popped(self.h2p[ch])), ..self }
        } else {
            self
        }
    }

    /// Control write: the byte is stored; bit 7 empties every queue and
    /// clears both interrupt flags.
    pub open spec fn control_written(self, value: u8) -> Self {
        if value & 0x80 != 0 {
            TubeState { control: value, ..Self::initial() }
        } else {
            TubeState { control: value, ..self }
        }
    }

    /// State after a host write of `value` to register `reg`.
    pub open spec fn after_host_write(self, reg: u8, value: u8) -> Self {
        let r = reg % 8;
        let ch = channel(reg);
        if r == 0 {
            self.control_written(value).refreshed()
        } else if r % 2 == 0 {
            self.refreshed()
        } else {
            let q = self.h2p[ch];
            let s = TubeState { h2p: self.h2p.update(ch, pushed(q, value, depth(ch))), ..self };
            let s = if ch == 3 && q.len() < depth(ch) && self.control & 0x01 != 0 {
                TubeState { parasite_irq: true, ..s }
            } else {
                s
            };
            s.refreshed()
        }
    }

    /// State after a parasite write of `value` to register `reg` (status
    /// registers ignore writes).
    pub open spec fn after_parasite_write(self, reg: u8, value: u8) -> Self {
        let ch = channel(reg);
        if reg % 2 == 0 {
            self.refreshed()
        } else {
            let q = self.p2h[ch];
            let s = TubeState { p2h: self.p2h.update(ch, pushed(q, value, depth(ch))), ..self };
            let s = if ch == 3 && q.len() < depth(ch) && self.control & 0x10 != 0 {
                TubeState { host_irq: true, ..s }
            } else {
                s
            };
            s.refreshed()
        }
    }
}

/// Every Tube operation keeps each queue within its channel's depth.
pub proof fn lemma_depth_kept(t: TubeState, reg: u8, value: u8)
    requires
        t.wf(),
    ensures
        t.after_host_read(reg).wf(),
        t.after_parasite_read(reg).wf(),
        t.after_host_write(reg, value).wf(),
        t.after_parasite_write(reg, value).wf(),
        TubeState::initial().wf(),
{
}

/// A byte the host writes into an empty channel is the next byte the
/// parasite reads from it, and the read empties the channel again; the same
/// holds from parasite to host.
pub proof fn lemma_channel_round_trip(t: TubeState, reg: u8, value: u8)
    requires
        t.wf(),
        reg % 2 == 1,
        t.h2p[channel(reg)].len() == 0,
        t.p2h[channel(reg)].len() == 0,
    ensures
        t.after_host_write(reg, value).parasite_read_value(reg) == value,
        t.after_host_write(reg, value).after_parasite_read(reg).h2p[channel(reg)].len() == 0,
        t.after_parasite_write(reg, value).host_read_value(reg) == value,
        t.after_parasite_write(reg, value).after_host_read(reg).p2h[channel(reg)].len() == 0,
{
    assert(channel(reg) < 4);
}

/// Bytes queued on a channel come out in the order they went in: after two
/// host writes into an empty R3, the parasite reads the first byte, then
/// the second.
pub proof fn lemma_r3_in_order(t: TubeState, a: u8, b: u8)
    requires
        t.wf(),
        t.h2p[2].len() == 0,
    ensures
        ({
            let s = t.after_host_write(5, a).after_host_write(5, b);
            &&& s.parasite_read_value(5) == a
            &&& s.after_parasite_read(5).parasite_read_value(5) == b
        }),
{
    let s1 = t.after_host_write(5, a);
    assert(s1.h2p[2] =~= seq![a]);
    let s2 = s1.after_host_write(5, b);
    assert(s2.h2p[2] =~= seq![a, b]);
    assert(s2.after_parasite_read(5).h2p[2] =~= seq![b]);
}

/// A control write with bit 7 set leaves no data available on either side.
pub proof fn lemma_reset_clears(t: TubeState, value: u8, reg: u8)
    requires
        value & 0x80 != 0,
    ensures
        t.after_host_write(0, value).host_read_value(reg) & 0x80 == 0 || reg % 2 == 1,
        t.after_host_write(0, value).parasite_read_value(reg) & 0x80 == 0 || reg % 2 == 1,
        forall|ch: int|
            0 <= ch < 4 ==> #[trigger] t.after_host_write(0, value).h2p[ch].len() == 0
                && t.after_host_write(0, value).p2h[ch].len() == 0,
{
    let s = t.after_host_write(0, value);
    assert(s.h2p =~= TubeState::initial().h2p);
    assert(s.p2h =~= TubeState::initial().p2h);
    assert(channel(reg) < 4);
    let c = s.control;
    assert((0u8 | 0x40u8 | (c & 0x3F)) & 0x80 == 0) by {
            crate::bits::lemma_byte_fields(c);
        }
    assert((0u8 | 0u8 | (c & 0x3F)) & 0x80 == 0) by {
            crate::bits::lemma_byte_fields(c);
        }
    assert((0u8 | 0x40u8) & 0x80 == 0) by (bit_vector);
    assert((0u8 | 0u8) & 0x80 == 0) by (bit_vector);
}

pub struct Tube {
    r1_h2p: VecDeque<u8>,
    r1_p2h: VecDeque<u8>,
    r2_h2p: VecDeque<u8>,
    r2_p2h: VecDeque<u8>,
    r3_h2p: VecDeque<u8>,
    r3_p2h: VecDeque<u8>,
    r4_h2p: VecDeque<u8>,
    r4_p2h: VecDeque<u8>,
    /// Last byte written to the host's R1 status register.
    control: u8,
    /// Interrupt requests waiting for the owner to route them.
    pub host_irq: bool,
    pub parasite_irq: bool,
}

impl View for Tube {
    type V = TubeState;

    closed spec fn view(&self) -> TubeState {
        TubeState {
            h2p: seq![self.r1_h2p@, self.r2_h2p@, self.r3_h2p@, self.r4_h2p@],
            p2h: seq![self.r1_p2h@, self.r2_p2h@, self.r3_p2h@, self.r4_p2h@],
            control: self.control,
            host_irq: self.host_irq,
            parasite_irq: self.parasite_irq,
        }
    }
}

fn pop_or_zero(q: &mut VecDeque<u8>) -> (v: u8)
    ensures
        v == front_or_zero(old(q)@),
        final(q)@ == popped(old(q)@),
{
    match q.pop_front() {
        Some(v) => v,
        None => 0,
    }
}

fn push_if_room(q: &mut VecDeque<u8>, value: u8, depth: usize) -> (pushed_now: bool)
    ensures
        final(q)@ == pushed(old(q)@, value, depth as nat),
        pushed_now == (old(q)@.len() < depth),
{
    if q.len() < depth {
        q.push_back(value);
        true
    } else {
        false
    }
}

fn two_fifo_status(this_side_avail: usize, other_side_used: usize, depth: usize) -> (s: u8)
    ensures
        s == (if this_side_avail > 0 { 0x80u8 } else { 0u8 }) | (if other_side_used < depth {
            0x40u8
        } else {
            0u8
        }),
{
    let mut s: u8 = 0;
    if this_side_avail > 0 {
        s = s | 0x80;
    }
    if other_side_used < depth {
        s = s | 0x40;
    }
    assert((0u8 | 0x80u8) | 0x40u8 == 0x80u8 | 0x40u8 && (0u8 | 0x80u8) == 0x80u8 | 0u8 && (0u8
        | 0x40u8) == 0u8 | 0x40u8 && 0u8 == 0u8 | 0u8) by (bit_vector);
    s
}

impl Tube {
    pub fn new() -> (t: Self)
        ensures
            t@ == TubeState::initial(),
    {
        let t = Tube {
            r1_h2p: VecDeque::new(),
            r1_p2h: VecDeque::new(),
            r2_h2p: VecDeque::new(),
            r2_p2h: VecDeque::new(),
            r3_h2p: VecDeque::new(),
            r3_p2h: VecDeque::new(),
            r4_h2p: VecDeque::new(),
            r4_p2h: VecDeque::new(),
            control: 0,
            host_irq: false,
            parasite_irq: false,
        };
        assert(t@.h2p =~= TubeState::initial().h2p);
        assert(t@.p2h =~= TubeState::initial().p2h);
        t
    }

    /// Host-side read of one of the eight registers ($FEE0-$FEE7).
    pub fn host_read(&mut self, reg: u8) -> (v: u8)
        ensures
            v == old(self)@.host_read_value(reg),
            final(self)@ == old(self)@.after_host_read(reg),
    {
        assert(reg & 0x07 == reg % 8) by {
            crate::bits::lemma_byte_fields(reg);
        }
        let r = reg & 0x07;
        let v = if r == 0 {
            self.status_r1()
        } else if r == 1 {
            pop_or_zero(&mut self.r1_p2h)
        } else if r == 2 {
            two_fifo_status(self.r2_p2h.len(), self.r2_h2p.len(), FIFO_DEPTH_R2)
        } else if r == 3 {
            pop_or_zero(&mut self.r2_p2h)
        } else if r == 4 {
            two_fifo_status(self.r3_p2h.len(), self.r3_h2p.len(), FIFO_DEPTH_R3)
        } else if r == 5 {
            pop_or_zero(&mut self.r3_p2h)
        } else if r == 6 {
            two_fifo_status(self.r4_p2h.len(), self.r4_h2p.len(), FIFO_DEPTH_R1_R4)
        } else {
            pop_or_zero(&mut self.r4_p2h)
        };
        proof {
            assert(self@.p2h =~= old(self)@.after_host_read(reg).p2h);
            assert(self@.h2p =~= old(self)@.after_host_read(reg).h2p);
        }
        v
    }

    /// Host-side write to one of the eight registers; status registers
    /// other than R1's ignore it.
    pub fn host_write(&mut self, reg: u8, value: u8)
        ensures
            final(self)@ == old(self)@.after_host_write(reg, value),
    {
        assert(reg & 0x07 == reg % 8) by {
            crate::bits::lemma_byte_fields(reg);
        }
        let r = reg & 0x07;
        if r == 0 {
            self.write_control(value);
            return ;
        } else if r == 1 {
            push_if_room(&mut self.r1_h2p, value, FIFO_DEPTH_R1_R4);
        } else if r == 3 {
            push_if_room(&mut self.r2_h2p, value, FIFO_DEPTH_R2);
        } else if r == 5 {
            push_if_room(&mut self.r3_h2p, value, FIFO_DEPTH_R3);
        } else if r == 7 {
            if push_if_room(&mut self.r4_h2p, value, FIFO_DEPTH_R1_R4) {
                if self.control & 0x01 != 0 {
                    self.parasite_irq = true;
                }
            }
        }
        proof {
            let s = old(self)@.after_host_write(reg, value);
            assert(self@.h2p =~= old(self)@.h2p.update(
                channel(reg),
                if reg % 2 == 1 {
                    pushed(old(self)@.h2p[channel(reg)], value, depth(channel(reg)))
                } else {
                    old(self)@.h2p[channel(reg)]
                },
            ));
            assert(self@.p2h =~= old(self)@.p2h);
        }
        self.refresh_irq();
    }

    /// Parasite-side read of one of the eight registers.
    pub fn parasite_read(&mut self, reg: u8) -> (v: u8)
        ensures
            v == old(self)@.parasite_read_value(reg),
            final(self)@ == old(self)@.after_parasite_read(reg),
    {
        assert(reg & 0x07 == reg % 8) by {
            crate::bits::lemma_byte_fields(reg);
        }
        let r = reg & 0x07;
        let v = if r == 0 {
            two_fifo_status(self.r1_h2p.len(), self.r1_p2h.len(), FIFO_DEPTH_R1_R4)
        } else if r == 1 {
            pop_or_zero(&mut self.r1_h2p)
        } else if r == 2 {
            two_fifo_status(self.r2_h2p.len(), self.r2_p2h.len(), FIFO_DEPTH_R2)
        } else if r == 3 {
            pop_or_zero(&mut self.r2_h2p)
        } else if r == 4 {
            two_fifo_status(self.r3_h2p.len(), self.r3_p2h.len(), FIFO_DEPTH_R3)
        } else if r == 5 {
            pop_or_zero(&mut self.r3_h2p)
        } else if r == 6 {
            two_fifo_status(self.r4_h2p.len(), self.r4_p2h.len(), FIFO_DEPTH_R1_R4)
        } else {
            pop_or_zero(&mut self.r4_h2p)
        };
        proof {
            assert(self@.p2h =~= old(self)@.after_parasite_read(reg).p2h);
            assert(self@.h2p =~= old(self)@.after_parasite_read(reg).h2p);
        }
        v
    }

    /// Parasite-side write; status registers ignore it.
    pub fn parasite_write(&mut self, reg: u8, value: u8)
        ensures
            final(self)@ == old(self)@.after_parasite_write(reg, value),
    {
        assert(reg & 0x07 == reg % 8) by {
            crate::bits::lemma_byte_fields(reg);
        }
        let r = reg & 0x07;
        if r == 1 {
            push_if_room(&mut self.r1_p2h, value, FIFO_DEPTH_R1_R4);
        } else if r == 3 {
            push_if_room(&mut self.r2_p2h, value, FIFO_DEPTH_R2);
        } else if r == 5 {
            push_if_room(&mut self.r3_p2h, value, FIFO_DEPTH_R3);
        } else if r == 7 {
            if push_if_room(&mut self.r4_p2h, value, FIFO_DEPTH_R1_R4) {
                if self.control & 0x10 != 0 {
                    self.host_irq = true;
                }
            }
        }
        proof {
            assert(self@.p2h =~= old(self)@.p2h.update(
                channel(reg),
                if reg % 2 == 1 {
                    pushed(old(self)@.p2h[channel(reg)], value, depth(channel(reg)))
                } else {
                    old(self)@.p2h[channel(reg)]
                },
            ));
            assert(self@.h2p =~= old(self)@.h2p);
        }
        self.refresh_irq();
    }

    fn write_control(&mut self, value: u8)
        ensures
            final(self)@ == old(self)@.control_written(value).refreshed(),
    {
        self.control = value;
        if value & 0x80 != 0 {
            self.r1_h2p.clear();
            self.r1_p2h.clear();
            self.r2_h2p.clear();
            self.r2_p2h.clear();
            self.r3_h2p.clear();
            self.r3_p2h.clear();
            self.r4_h2p.clear();
            self.r4_p2h.clear();
            self.host_irq = false;
            self.parasite_irq = false;
            assert(self@.h2p =~= TubeState::initial().h2p);
            assert(self@.p2h =~= TubeState::initial().p2h);
        }
        self.refresh_irq();
    }

    fn refresh_irq(&mut self)
        ensures
            final(self)@ == old(self)@.refreshed(),
    {
        let h = (self.control & 0x20 != 0 && self.r1_p2h.len() > 0) || (self.control & 0x10 != 0
            && self.r4_p2h.len() > 0);
        if h {
            self.host_irq = true;
        }
        let p = (self.control & 0x02 != 0 && self.r1_h2p.len() > 0) || (self.control & 0x01 != 0
            && self.r4_h2p.len() > 0);
        if p {
            self.parasite_irq = true;
        }
    }

    fn status_r1(&self) -> (s: u8)
        ensures
            s == fifo_status(self@.p2h[0], self@.h2p[0], 1) | (self@.control & 0x3F),
    {
        two_fifo_status(self.r1_p2h.len(), self.r1_h2p.len(), FIFO_DEPTH_R1_R4) | (self.control
            & 0x3F)
    }

    /// Take the host interrupt request (it is cleared).
    pub fn poll_host_irq(&mut self) -> (v: bool)
        ensures
            v == old(self)@.host_irq,
            final(self)@ == (TubeState { host_irq: false, ..old(self)@ }),
    {
        let v = self.host_irq;
        self.host_irq = false;
        v
    }

    /// Take the parasite interrupt request (it is cleared).
    pub fn poll_parasite_irq(&mut self) -> (v: bool)
        ensures
            v == old(self)@.parasite_irq,
            final(self)@ == (TubeState { parasite_irq: false, ..old(self)@ }),
    {
        let v = self.parasite_irq;
        self.parasite_irq = false;
        v
    }
}

/// The memory of a second processor: 64 KiB of RAM, with an optional 4 KiB
/// boot ROM overlaid on reads from $F000-$FFFF. Writes always go to RAM.
pub struct Parasite {
    pub ram: Vec<u8>,
    pub boot_rom_top: Option<Vec<u8>>,
}

impl Parasite {
    pub open spec fn wf(&self) -> bool {
        &&& self.ram@.len() == PARASITE_RAM_SIZE
        &&& match self.boot_rom_top {
            Some(rom) => rom@.len() == 0x1000,
            None => true,
        }
    }

    /// Byte the parasite reads at `addr`.
    pub open spec fn read_value(&self, addr: u16) -> u8 {
        match self.boot_rom_top {
            Some(rom) if addr >= 0xF000 => rom@[addr - 0xF000],
            _ => self.ram@[addr as int],
        }
    }

    /// RAM filled with $FF and no boot ROM.
    pub fn new() -> (p: Self)
        ensures
            p.wf(),
            p.boot_rom_top is None,
            forall|i: int| 0 <= i < PARASITE_RAM_SIZE ==> #[trigger] p.ram@[i] == 0xFF,
    {
        let mut ram: Vec<u8> = Vec::with_capacity(PARASITE_RAM_SIZE);
        let mut i: usize = 0;
        while i < PARASITE_RAM_SIZE
            invariant
                i <= PARASITE_RAM_SIZE,
                ram@.len() == i,
                forall|j: int| 0 <= j < i ==> #[trigger] ram@[j] == 0xFF,
            decreases PARASITE_RAM_SIZE - i,
        {
            ram.push(0xFF);
            i = i + 1;
        }
        Parasite { ram, boot_rom_top: None }
    }

    pub fn read(&self, addr: u16) -> (v: u8)
        requires
            self.wf(),
        ensures
            v == self.read_value(addr),
    {
        if let Some(rom) = &self.boot_rom_top {
            if addr >= 0xF000 {
                return rom[(addr - 0xF000) as usize];
            }
        }
        self.ram[addr as usize]
    }

    /// Writes reach RAM even under the boot ROM.
    pub fn write(&mut self, addr: u16, value: u8)
        requires
            old(self).wf(),
        ensures
            final(self).wf(),
            final(self).ram@ == old(self).ram@.update(addr as int, value),
            final(self).boot_rom_top == old(self).boot_rom_top,
    {
        self.ram.set(addr as usize, value);
    }
}

/// A parasite reads back what it wrote, wherever its RAM shows through.
pub proof fn lemma_parasite_read_after_write(p: Parasite, q: Parasite, addr: u16, value: u8)
    requires
        p.wf(),
        q.ram@ == p.ram@.update(addr as int, value),
        q.boot_rom_top == p.boot_rom_top,
        p.boot_rom_top is None || addr < 0xF000,
    ensures
        q.read_value(addr) == value,
{
}

impl Default for Parasite {
    fn default() -> (p: Self)
        ensures
            p.wf(),
            p.boot_rom_top is None,
            forall|i: int| 0 <= i < PARASITE_RAM_SIZE ==> #[trigger] p.ram@[i] == 0xFF,
    {
        Parasite::new()
    }
}

impl Default for Tube {
    fn default() -> (t: Self)
        ensures
            t@ == TubeState::initial(),
    {
        Tube::new()
    }
}

} // verus!
