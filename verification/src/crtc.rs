//! Motorola 6845 CRT controller: register file and the frame / scanline
//! counters. Pixel generation lives in `renderer`.
//!
//! ```text
//!   R0  horizontal total - 1        R1  horizontal displayed
//!   R2  horizontal sync position    R3  sync widths (V << 4 | H)
//!   R4  vertical total - 1          R5  vertical total adjust
//!   R6  vertical displayed          R7  vertical sync position
//!   R8  interlace / skew            R9  scanlines per character row - 1
//!   R10 cursor start + blink        R11 cursor end
//!   R12/R13 display start address   R14/R15 cursor address
//!   R16/R17 light pen
//! ```
//!
//! $FE00 writes the address latch, $FE01 reads / writes the addressed
//! register. The character clock runs at 1 MHz: two CPU cycles per cell.
use vstd::prelude::*;
use vstd::array::spec_array_fill_for_copy_type;

verus! {

broadcast use vstd::array::group_array_axioms;

pub const REG_COUNT: usize = 18;

/// Number of slots in the per-scanline display-start table.
pub const SCANLINE_SLOTS: usize = 312;

pub struct Crtc6845 {
    pub addr_latch: u8,
    pub regs: [u8; 18],
    /// Current scanline within the frame.
    pub scanline_in_frame: u16,
    /// Character cells elapsed in the current scanline.
    pub cycle_in_scanline: u16,
    /// Set on the scanline where VSYNC starts; consumed by
    /// `consume_vsync_edge`.
    pub vsync_edge: bool,
    /// VSYNC output (System VIA CA1).
    pub vsync_active: bool,
    /// Odd CPU cycle carried to the next `tick`.
    pub pending_half: u8,
    /// Display start address (R12:R13) in effect on each scanline, so the
    /// renderer sees mid-frame reprogramming.
    pub start_per_scanline: [u16; 312],
    /// Slot of `start_per_scanline` for the current scanline.
    pub current_scanline_index: u16,
}

#[derive(Clone, Copy, Debug, PartialEq, Eq, Structural)]
pub struct CrtcEvents {
    pub vsync_edge: bool,
    pub frame_done: bool,
}

/// Display start R12:R13 (14 bits) for a register file.
pub open spec fn start_address(regs: Seq<u8>) -> u16 {
    (((regs[12] & 0x3F) as u16) << 8) | (regs[13] as u16)
}

/// Character cells per scanline.
pub open spec fn h_total(regs: Seq<u8>) -> int {
    regs[0] + 1
}

/// Scanlines per character row.
pub open spec fn raster_per_row(regs: Seq<u8>) -> int {
    regs[9] + 1
}

/// Scanlines per frame (at least one).
pub open spec fn scanlines_per_frame(regs: Seq<u8>) -> int {
    let n = (regs[4] + 1) * raster_per_row(regs) + regs[5];
    if n < 1 { 1 } else { n }
}

/// First scanline of VSYNC: R7 character rows down.
pub open spec fn vsync_start(regs: Seq<u8>) -> int {
    regs[7] * raster_per_row(regs)
}

/// VSYNC width in scanlines: R3 bits 7-4, where 0 means 16.
pub open spec fn vsync_width(regs: Seq<u8>) -> int {
    let w = regs[3] / 16;
    if w == 0 { 16 } else { w as int }
}

/// The BBC's screen address for character address `ma` and raster `ra`:
/// addresses with MA13 set wrap back by the screen size, then each
/// character is 8 bytes and the result is folded into 32 KiB.
pub open spec fn screen_address(ma: u16, ra: u16, screen_size_offset: u16) -> u16 {
    let a = if ma & 0x2000 != 0 {
        (ma + 65536 - screen_size_offset / 8) % 65536
    } else {
        ma as int
    };
    ((a * 8 + ra % 8) % 32768) as u16
}

impl Crtc6845 {
    /// State after the last character cell of a scanline: move to the next
    /// scanline (wrapping the frame and resetting the per-scanline table),
    /// then update the VSYNC output.
    pub open spec fn end_of_scanline(self) -> (Self, bool, bool) {
        let regs = self.regs@;
        let next = ((self.scanline_in_frame + 1) % 65536) as u16;
        let frame_done = next >= scanlines_per_frame(regs);
        let line: u16 = if frame_done { 0 } else { next };
        let idx: u16 = if frame_done { 0 } else if next < 311 { next } else { 311 };
        let table: [u16; 312] = if frame_done {
            spec_array_fill_for_copy_type::<u16, 312>(start_address(regs))
        } else {
            self.start_per_scanline
        };
        let active = vsync_start(regs) <= line && line < vsync_start(regs) + vsync_width(regs);
        let rising = active && !self.vsync_active;
        (
            Crtc6845 {
                cycle_in_scanline: 0,
                scanline_in_frame: line,
                current_scanline_index: idx,
                start_per_scanline: table,
                vsync_active: active,
                vsync_edge: self.vsync_edge || rising,
                ..self
            },
            rising,
            frame_done,
        )
    }

    /// One character cell; returns the state and (vsync edge, frame done).
    pub open spec fn cell_step(self) -> (Self, bool, bool) {
        if self.cycle_in_scanline + 1 >= h_total(self.regs@) {
            self.end_of_scanline()
        } else {
            (
                Crtc6845 { cycle_in_scanline: (self.cycle_in_scanline + 1) as u16, ..self },
                false,
                false,
            )
        }
    }

    /// `n` character cells, with the events seen along the way.
    pub open spec fn cells(self, n: nat) -> (Self, bool, bool)
        decreases n,
    {
        if n == 0 {
            (self, false, false)
        } else {
            let (s, v, f) = self.cells((n - 1) as nat);
            let (s2, v2, f2) = s.cell_step();
            (s2, v || v2, f || f2)
        }
    }

    /// Result of `tick(cycles)`: `(cycles + carry) / 2` character cells.
    pub open spec fn ticked(self, cycles: u32) -> (Self, bool, bool) {
        let total = cycles + self.pending_half;
        Crtc6845 { pending_half: (total % 2) as u8, ..self }.cells((total / 2) as nat)
    }

    /// Value read at `addr`: the address register is write-only ($FF);
    /// of the data registers only R14-R17 read back, others read $00.
    pub open spec fn read_value(self, addr: u16) -> u8 {
        let idx = self.addr_latch % 32;
        if addr % 2 == 0 {
            0xFF
        } else if 14 <= idx && idx <= 17 {
            self.regs@[idx as int]
        } else {
            0
        }
    }

    pub fn new() -> (c: Self)
        ensures
            c.addr_latch == 0,
            c.regs@ == Seq::new(18, |i: int| 0u8),
            c.scanline_in_frame == 0 && c.cycle_in_scanline == 0,
            !c.vsync_edge && !c.vsync_active && c.pending_half == 0,
            c.start_per_scanline@ == Seq::new(312, |i: int| 0u16),
            c.current_scanline_index == 0,
    {
        let c = Crtc6845 {
            addr_latch: 0,
            regs: [0u8; 18],
            scanline_in_frame: 0,
            cycle_in_scanline: 0,
            vsync_edge: false,
            vsync_active: false,
            pending_half: 0,
            start_per_scanline: [0u16; 312],
            current_scanline_index: 0,
        };
        assert(c.regs@ =~= Seq::new(18, |i: int| 0u8));
        assert(c.start_per_scanline@ =~= Seq::new(312, |i: int| 0u16));
        c
    }

    pub fn read(&mut self, addr: u16) -> (v: u8)
        ensures
            v == old(self).read_value(addr),
            *final(self) == *old(self),
    {
        assert(addr & 1 == addr % 2) by {
            crate::bits::lemma_word_fields(addr);
        }
        let l = self.addr_latch;
        assert(l & 0x1F == l % 32) by {
            crate::bits::lemma_byte_fields(l);
        }
        if addr & 0x01 == 0 {
            0xFF
        } else {
            let idx = self.addr_latch & 0x1F;
            if 14 <= idx && idx <= 17 {
                self.regs[idx as usize]
            } else {
                0x00
            }
        }
    }

    /// `next` is this controller after a write of `value` at `addr`.
    pub open spec fn written(self, next: Self, addr: u16, value: u8) -> bool {
        &&& (addr % 2 == 0 ==> next == (Crtc6845 { addr_latch: value % 32, ..self }))
        &&& (addr % 2 == 1 && self.addr_latch % 32 >= 18 ==> next == self)
        &&& (addr % 2 == 1 && self.addr_latch % 32 < 18 ==> ({
                let idx = (self.addr_latch % 32) as int;
                let regs = self.regs@.update(idx, value);
                &&& next.regs@ == regs
                &&& next.start_per_scanline@ == if idx == 12 || idx == 13 {
                    Seq::new(
                        312,
                        |i: int|
                            if i >= self.current_scanline_index {
                                start_address(regs)
                            } else {
                                self.start_per_scanline@[i]
                            },
                    )
                } else {
                    self.start_per_scanline@
                }
                &&& next == (Crtc6845 {
                    regs: next.regs,
                    start_per_scanline: next.start_per_scanline,
                    ..self
                })
            }))
    }

    /// Even address: select register `value & 31`. Odd address: write the
    /// selected register (R0-R17); a new display start (R12/R13) applies from
    /// the current scanline to the end of the frame.
    pub fn write(&mut self, addr: u16, value: u8)
        ensures
            old(self).written(*final(self), addr, value),
    {
        assert(addr & 1 == addr % 2) by {
            crate::bits::lemma_word_fields(addr);
        }
        assert(value & 0x1F == value % 32) by {
            crate::bits::lemma_byte_fields(value);
        }
        let l = self.addr_latch;
        assert(l & 0x1F == l % 32) by {
            crate::bits::lemma_byte_fields(l);
        }
        if addr & 0x01 == 0 {
            self.addr_latch = value & 0x1F;
        } else {
            let idx = (self.addr_latch & 0x1F) as usize;
            if idx < REG_COUNT {
                self.regs[idx] = value;
                if idx == 12 || idx == 13 {
                    let new_start = self.display_start_crtc_addr();
                    let ghost pre = *self;
                    let ghost old_table = self.start_per_scanline@;
                    let from = self.current_scanline_index as usize;
                    let mut i = if from < SCANLINE_SLOTS { from } else { SCANLINE_SLOTS };
                    while i < SCANLINE_SLOTS
                        invariant
                            i <= 312,
                            from <= i || i == 312,
                            old_table == pre.start_per_scanline@,
                            *self == (Crtc6845 { start_per_scanline: self.start_per_scanline, ..pre }),
                            new_start == start_address(self.regs@),
                            forall|j: int|
                                0 <= j < 312 ==> self.start_per_scanline@[j] == if j >= from
                                    && j < i {
                                    new_start
                                } else {
                                    old_table[j]
                                },
                        decreases SCANLINE_SLOTS - i,
                    {
                        self.start_per_scanline[i] = new_start;
                        i = i + 1;
                    }
                    assert(self.start_per_scanline@ =~= Seq::new(
                        312,
                        |j: int| if j >= from { new_start } else { old_table[j] },
                    ));
                }
            }
        }
    }

    /// Register `idx` (0..18).
    pub fn reg(&self, idx: usize) -> (v: u8)
        requires
            idx < 18,
        ensures
            v == self.regs@[idx as int],
    {
        self.regs[idx]
    }

    pub fn horizontal_displayed(&self) -> (v: u16)
        ensures
            v == self.regs@[1],
    {
        self.regs[1] as u16
    }

    pub fn vertical_displayed(&self) -> (v: u16)
        ensures
            v == self.regs@[6],
    {
        self.regs[6] as u16
    }

    pub fn scanlines_per_char_row(&self) -> (v: u16)
        ensures
            v == self.regs@[9] + 1,
    {
        self.regs[9] as u16 + 1
    }

    /// Cursor position (R14:R15, 14 bits).
    pub fn cursor_crtc_addr(&self) -> (v: u16)
        ensures
            v == (((self.regs@[14] & 0x3F) as u16) << 8) | (self.regs@[15] as u16),
    {
        (((self.regs[14] & 0x3F) as u16) << 8) | self.regs[15] as u16
    }

    /// Cursor visibility for R10 bits 6-5: 00 on, 01 off, 10 blinking every
    /// 16 frames, 11 blinking every 8 frames.
    pub fn cursor_visible(&self, frame_count: u32) -> (b: bool)
        ensures
            ({
                let mode = (self.regs@[10] >> 5) & 3;
                b == if mode == 0 {
                    true
                } else if mode == 1 {
                    false
                } else if mode == 2 {
                    (frame_count / 16) % 2 == 0
                } else {
                    (frame_count / 8) % 2 == 0
                }
            }),
    {
        let r = self.regs[10];
        assert((r >> 5) & 0b11 == (r / 32) % 4) by {
            crate::bits::lemma_byte_fields(r);
        }
        assert(((frame_count / 16) & 1 == 0) == ((frame_count / 16) % 2 == 0) && ((frame_count / 8)
            & 1 == 0) == ((frame_count / 8) % 2 == 0)) by (bit_vector);
        let mode = (self.regs[10] >> 5) & 0b11;
        if mode == 0 {
            true
        } else if mode == 1 {
            false
        } else if mode == 2 {
            (frame_count / 16) & 1 == 0
        } else {
            (frame_count / 8) & 1 == 0
        }
    }

    /// Display start (R12:R13, 14 bits).
    pub fn display_start_crtc_addr(&self) -> (v: u16)
        ensures
            v == start_address(self.regs@),
    {
        (((self.regs[12] & 0x3F) as u16) << 8) | self.regs[13] as u16
    }

    /// Screen-RAM address of character `ma`, raster `ra`, given the screen
    /// size in bytes (`screen_size_offset`).
    pub fn bbc_screen_addr(ma: u16, ra: u16, screen_size_offset: u16) -> (a: u16)
        ensures
            a == screen_address(ma, ra, screen_size_offset),
            a < 0x8000,
            a & 7 == ra & 7,
            ma & 0x2000 == 0 && ma < 0x1000 ==> a == ma * 8 + (ra & 7),
    {
        let a: u32 = if ma & 0x2000 != 0 {
            (ma as u32 + 65536 - (screen_size_offset / 8) as u32) % 65536
        } else {
            ma as u32
        };
        let r = ((a * 8 + (ra % 8) as u32) % 32768) as u16;
        proof {
            crate::bits::lemma_word_fields(r);
            crate::bits::lemma_word_fields(ra);
            crate::bits::lemma_word_fields(ma);
        }
        r
    }

    fn end_scanline(&mut self) -> (ev: (bool, bool))
        ensures
            (*final(self), ev.0, ev.1) == old(self).end_of_scanline(),
    {
        let h = self.regs[0];
        let raster_per_row: u32 = self.regs[9] as u32 + 1;
        let rows: u32 = self.regs[4] as u32 + 1;
        assert(rows * raster_per_row <= 256 * 256) by (nonlinear_arith)
            requires
                rows <= 256,
                raster_per_row <= 256,
        ;
        let frame_len: u32 = rows * raster_per_row + self.regs[5] as u32;
        let spf: u32 = if frame_len < 1 { 1 } else { frame_len };
        let next: u16 = if self.scanline_in_frame == 65535 { 0 } else { self.scanline_in_frame + 1 };
        let mut frame_done = false;
        self.cycle_in_scanline = 0;
        self.scanline_in_frame = next;
        self.current_scanline_index = if next < 311 { next } else { 311 };
        if next as u32 >= spf {
            self.scanline_in_frame = 0;
            self.current_scanline_index = 0;
            frame_done = true;
            let start = self.display_start_crtc_addr();
            self.start_per_scanline = [start; 312];
        }
        assert(self.regs[7] as u32 * raster_per_row <= 256 * 256) by (nonlinear_arith)
            requires
                self.regs[7] < 256,
                raster_per_row <= 256,
        ;
        let vsync_start: u32 = self.regs[7] as u32 * raster_per_row;
        let w = self.regs[3];
        assert((w >> 4) & 0x0F == w / 16) by {
            crate::bits::lemma_byte_fields(w);
        }
        let width: u32 = ((self.regs[3] >> 4) & 0x0F) as u32;
        let width: u32 = if width == 0 { 16 } else { width };
        let vsync_end: u32 = vsync_start + width;
        let was_active = self.vsync_active;
        self.vsync_active = (self.scanline_in_frame as u32) >= vsync_start
            && (self.scanline_in_frame as u32) < vsync_end;
        let mut rising = false;
        if self.vsync_active && !was_active {
            self.vsync_edge = true;
            rising = true;
        }
        (rising, frame_done)
    }

    /// Advance by `cycles` CPU clocks (2 MHz): one character cell per two
    /// cycles, the odd cycle carried to the next call. Returns the VSYNC
    /// rising edges and frame ends that happened.
    pub fn tick(&mut self, cycles: u32) -> (events: CrtcEvents)
        ensures
            ({
                let (s, v, f) = old(self).ticked(cycles);
                &&& *final(self) == s
                &&& events == (CrtcEvents { vsync_edge: v, frame_done: f })
            }),
    {
        let total: u64 = cycles as u64 + self.pending_half as u64;
        let char_cells: u64 = total / 2;
        self.pending_half = (total % 2) as u8;
        let cells_per_line: u32 = self.regs[0] as u32 + 1;
        let ghost start = *self;
        let mut vsync_edge = false;
        let mut frame_done = false;
        let mut n: u64 = 0;
        while n < char_cells
            invariant
                n <= char_cells,
                cells_per_line == h_total(self.regs@),
                self.regs@ == start.regs@,
                (*self, vsync_edge, frame_done) == start.cells(n as nat),
            decreases char_cells - n,
        {
            if self.cycle_in_scanline as u32 + 1 >= cells_per_line {
                let (v, f) = self.end_scanline();
                vsync_edge = vsync_edge || v;
                frame_done = frame_done || f;
            } else {
                self.cycle_in_scanline = self.cycle_in_scanline + 1;
            }
            n = n + 1;
        }
        CrtcEvents { vsync_edge, frame_done }
    }

    /// True if a VSYNC rising edge happened since the last call; clears it.
    pub fn consume_vsync_edge(&mut self) -> (e: bool)
        ensures
            e == old(self).vsync_edge,
            *final(self) == (Crtc6845 { vsync_edge: false, ..*old(self) }),
    {
        let e = self.vsync_edge;
        self.vsync_edge = false;
        e
    }
}

/// Character cells do not look at the carried half cycle.
proof fn lemma_cells_with_half(c: Crtc6845, h: u8, n: nat)
    ensures
        (Crtc6845 { pending_half: h, ..c }).cells(n).0 == (Crtc6845 {
            pending_half: h,
            ..c.cells(n).0
        }),
        (Crtc6845 { pending_half: h, ..c }).cells(n).1 == c.cells(n).1,
        (Crtc6845 { pending_half: h, ..c }).cells(n).2 == c.cells(n).2,
    decreases n,
{
    if n > 0 {
        lemma_cells_with_half(c, h, (n - 1) as nat);
    }
}

/// `m` character cells followed by `n` more are `m + n` cells, and an
/// event is seen in the `m + n` exactly when it is seen in either part.
proof fn lemma_cells_add(c: Crtc6845, m: nat, n: nat)
    ensures
        c.cells(m).0.cells(n).0 == c.cells(m + n).0,
        c.cells(m + n).1 == (c.cells(m).1 || c.cells(m).0.cells(n).1),
        c.cells(m + n).2 == (c.cells(m).2 || c.cells(m).0.cells(n).2),
    decreases n,
{
    if n > 0 {
        lemma_cells_add(c, m, (n - 1) as nat);
    }
}

/// Ticking `a` CPU cycles and then `b` leaves the CRTC as ticking `a + b`
/// at once, and reports a VSYNC edge or a finished frame exactly when one
/// of the two ticks does.
pub proof fn lemma_tick_additive(c: Crtc6845, a: u32, b: u32)
    requires
        c.pending_half < 2,
        a + b <= u32::MAX,
    ensures
        c.ticked(a).0.ticked(b).0 == c.ticked((a + b) as u32).0,
        c.ticked((a + b) as u32).1 == (c.ticked(a).1 || c.ticked(a).0.ticked(b).1),
        c.ticked((a + b) as u32).2 == (c.ticked(a).2 || c.ticked(a).0.ticked(b).2),
{
    let p = c.pending_half;
    let t1 = a + p;
    let p1 = (t1 % 2) as u8;
    let s1 = (t1 / 2) as nat;
    let t2 = b + p1;
    let p2 = (t2 % 2) as u8;
    let s2 = (t2 / 2) as nat;
    lemma_cells_with_half(c, p1, s1);
    let c1 = c.ticked(a).0;
    assert(c1 == (Crtc6845 { pending_half: p1, ..c.cells(s1).0 }));
    let cp2 = Crtc6845 { pending_half: p2, ..c };
    lemma_cells_with_half(c.cells(s1).0, p2, s2);
    lemma_cells_with_half(c, p2, s1);
    lemma_cells_add(cp2, s1, s2);
    assert((Crtc6845 { pending_half: p2, ..c1 }) == (Crtc6845 { pending_half: p2, ..c.cells(s1).0 }));
    assert(cp2.cells(s1).0 == (Crtc6845 { pending_half: p2, ..c.cells(s1).0 }));
    assert(s1 + s2 == (a + b + p) / 2);
    assert(p2 == (a + b + p) % 2);
}

/// Selecting a cursor register (R14-R17) and writing it reads back the
/// written value; the address register itself reads $FF.
pub proof fn lemma_cursor_register_read_back(
    c: Crtc6845,
    selected: Crtc6845,
    written: Crtc6845,
    reg: u8,
    value: u8,
)
    requires
        c.regs@.len() == 18,
        14 <= reg <= 17,
        c.written(selected, 0, reg),
        selected.written(written, 1, value),
    ensures
        written.read_value(1) == value,
        written.read_value(0) == 0xFF,
{
}

impl Default for Crtc6845 {
    fn default() -> (c: Self)
        ensures
            c.addr_latch == 0,
            c.regs@ == Seq::new(18, |i: int| 0u8),
            c.scanline_in_frame == 0 && c.cycle_in_scanline == 0,
            !c.vsync_edge && !c.vsync_active && c.pending_half == 0,
            c.start_per_scanline@ == Seq::new(312, |i: int| 0u16),
            c.current_scanline_index == 0,
    {
        Crtc6845::new()
    }
}

} // verus!
