//! BBC Video ULA at $FE20/$FE21 (write-only registers).
//!
//! ```text
//!   $FE20  control: bit 4 = 6845 at 2 MHz, bits 3-2 = pixels per CRTC clock
//!          (11 = 1bpp, 10 = 2bpp, 01 = 4bpp, 00 = 8bpp), bit 1 = teletext,
//!          bit 0 = flash select
//!   $FE21  palette: bits 7-4 logical colour, bits 3-0 physical colour
//!          (bit 3 flash, bits 2-0 inverted B, G, R)
//! ```
//!
//! The screen-size code (System VIA IC32 bits 4-5) is mirrored here.
use vstd::prelude::*;

verus! {

pub struct VideoUla {
    pub control: u8,
    /// Logical to physical colour map; only the low four bits matter.
    pub palette: [u8; 16],
    /// Screen-size code: 0 = 20K (modes 0-2), 1 = 16K (mode 3),
    /// 2 = 10K (modes 4-5), 3 = 8K (modes 6-7).
    pub screen_size_code: u8,
}

/// Intensity of one RGB component: 255 when `on`, else 0.
pub open spec fn level(on: bool) -> u8 {
    if on { 255 } else { 0 }
}

/// RGB triple for a stored palette nibble: the low three bits are the
/// inverted R, G, B lines (bit 0 = R), the flash bit is ignored.
pub open spec fn physical_rgb(stored: u8) -> Seq<u8> {
    let phys = stored ^ 0x07;
    seq![level(phys & 0x01 != 0), level(phys & 0x02 != 0), level(phys & 0x04 != 0)]
}

/// Bytes below $8000 occupied by the screen for a screen-size code.
pub open spec fn screen_size_bytes(code: u8) -> u16 {
    let c = code % 4;
    if c == 0 {
        0x5000
    } else if c == 1 {
        0x4000
    } else if c == 2 {
        0x2800
    } else {
        0x2000
    }
}

/// Bits per pixel selected by control bits 3-2.
pub open spec fn bpp_for_control(control: u8) -> u8 {
    let m = (control / 4) % 4;
    if m == 0 {
        8
    } else if m == 1 {
        4
    } else if m == 2 {
        2
    } else {
        1
    }
}

impl VideoUla {
    /// `next` is this ULA after a write of `value` at `addr`.
    pub open spec fn written(self, next: Self, addr: u16, value: u8) -> bool {
        &&& (addr % 2 == 0 ==> next == (VideoUla { control: value, ..self }))
        &&& (addr % 2 == 1 ==> next.control == self.control && next.screen_size_code
            == self.screen_size_code && next.palette@ == self.palette@.update(
            (value / 16) as int,
            value % 16,
        ))
    }

    pub fn new() -> (u: Self)
        ensures
            u.control == 0,
            u.palette@ == Seq::new(16, |i: int| 0u8),
            u.screen_size_code == 0,
    {
        let u = VideoUla { control: 0, palette: [0u8; 16], screen_size_code: 0 };
        assert(u.palette@ =~= Seq::new(16, |i: int| 0u8));
        u
    }

    /// $FE20 (even address) sets the control register; $FE21 maps logical
    /// colour `value >> 4` to physical colour `value & 15`.
    pub fn write(&mut self, addr: u16, value: u8)
        ensures
            old(self).written(*final(self), addr, value),
    {
        assert(addr & 1 == addr % 2) by {
            crate::bits::lemma_word_fields(addr);
        }
        assert((value >> 4) & 0x0F == value / 16 && value & 0x0F == value % 16) by {
            crate::bits::lemma_byte_fields(value);
        }
        if addr & 0x01 == 0 {
            self.control = value;
        } else {
            let logical = (value >> 4) & 0x0F;
            let physical = value & 0x0F;
            self.palette[logical as usize] = physical;
        }
    }

    /// Both registers are write-only: reads see the open bus ($FF).
    pub fn read(&self, addr: u16) -> (v: u8)
        ensures
            v == 0xFF,
    {
        0xFF
    }

    /// RGB (each 0 or 255) of logical colour `logical` (low four bits used).
    pub fn resolve_color(&self, logical: u8) -> (rgb: [u8; 3])
        ensures
            rgb@ == physical_rgb(self.palette@[(logical % 16) as int]),
    {
        assert(logical & 0x0F == logical % 16) by {
            crate::bits::lemma_byte_fields(logical);
        }
        let phys = self.palette[(logical & 0x0F) as usize] ^ 0x07;
        let r: u8 = if phys & 0x01 != 0 { 255 } else { 0 };
        let g: u8 = if phys & 0x02 != 0 { 255 } else { 0 };
        let b: u8 = if phys & 0x04 != 0 { 255 } else { 0 };
        let rgb = [r, g, b];
        assert(rgb@ =~= physical_rgb(self.palette@[(logical % 16) as int]));
        rgb
    }

    /// Size of the screen below $8000 for the current screen-size code.
    pub fn screen_size_offset(&self) -> (o: u16)
        ensures
            o == screen_size_bytes(self.screen_size_code),
            o == seq![0x5000u16, 0x4000, 0x2800, 0x2000][(self.screen_size_code & 3) as int],
    {
        let c = self.screen_size_code;
        assert(c & 0x03 == c % 4) by {
            crate::bits::lemma_byte_fields(c);
        }
        let code = self.screen_size_code & 0x03;
        if code == 0 {
            0x5000
        } else if code == 1 {
            0x4000
        } else if code == 2 {
            0x2800
        } else {
            0x2000
        }
    }

    /// Bits per pixel from control bits 3-2.
    pub fn bits_per_pixel(&self) -> (b: u8)
        ensures
            b == bpp_for_control(self.control),
            b == seq![8u8, 4, 2, 1][((self.control >> 2) & 3) as int],
    {
        let c = self.control;
        assert((c >> 2) & 0x03 == (c / 4) % 4) by {
            crate::bits::lemma_byte_fields(c);
        }
        let m = (self.control >> 2) & 0x03;
        if m == 0 {
            8
        } else if m == 1 {
            4
        } else if m == 2 {
            2
        } else {
            1
        }
    }

    pub fn teletext_mode(&self) -> (b: bool)
        ensures
            b == (self.control & 0x02 != 0),
    {
        self.control & 0x02 != 0
    }

    pub fn high_clock(&self) -> (b: bool)
        ensures
            b == (self.control & 0x10 != 0),
    {
        self.control & 0x10 != 0
    }
}

/// After a palette write ($FE21) of `value`, logical colour `value >> 4`
/// shows the physical colour in `value`'s low nibble, and every other
/// logical colour keeps its colour.
pub proof fn lemma_palette_write_read_back(u: VideoUla, next: VideoUla, addr: u16, value: u8, other: u8)
    requires
        u.palette@.len() == 16,
        addr % 2 == 1,
        u.written(next, addr, value),
        other % 16 != value / 16,
    ensures
        physical_rgb(next.palette@[((value / 16) % 16) as int]) == physical_rgb(value % 16),
        physical_rgb(next.palette@[(other % 16) as int]) == physical_rgb(
            u.palette@[(other % 16) as int],
        ),
{
}

impl Default for VideoUla {
    fn default() -> (u: Self)
        ensures
            u.control == 0,
            u.palette@ == Seq::new(16, |i: int| 0u8),
            u.screen_size_code == 0,
    {
        VideoUla::new()
    }
}

} // verus!
