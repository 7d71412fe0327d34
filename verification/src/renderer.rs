//! Software renderer: BBC screen RAM + CRTC + Video ULA state to a 640x512
//! framebuffer of 0x00RRGGBB pixels. MODE 7 (teletext) is drawn as 40 x 25
//! cells of 16 x 20 pixels from the MOS character set; the bitmap modes use
//! the ULA's pixel decoding and palette.
use vstd::prelude::*;
use crate::crtc::{Crtc6845, start_address, screen_address};
use crate::video_ula::{VideoUla, physical_rgb, screen_size_bytes};

verus! {

pub const SCREEN_W: usize = 640;
pub const SCREEN_H: usize = 512;

/// Number of pixels in a frame.
pub const SCREEN_PIXELS: usize = 327_680;

pub struct Framebuffer {
    /// Row-major 0x00RRGGBB pixels.
    pub pixels: Vec<u32>,
}

/// 0x00RRGGBB of an RGB triple.
pub open spec fn pack(r: u8, g: u8, b: u8) -> u32 {
    (r * 65536 + g * 256 + b) as u32
}

fn pack_rgb(r: u8, g: u8, b: u8) -> (p: u32)
    ensures
        p == pack(r, g, b),
{
    assert(((r as u32) << 16) | ((g as u32) << 8) | (b as u32) == r as u32 * 65536 + g as u32 * 256
        + b as u32) by (bit_vector);
    ((r as u32) << 16) | ((g as u32) << 8) | (b as u32)
}

impl Framebuffer {
    pub open spec fn wf(&self) -> bool {
        self.pixels@.len() == SCREEN_PIXELS
    }

    /// An all-black frame.
    pub fn new() -> (fb: Self)
        ensures
            fb.wf(),
            forall|i: int| 0 <= i < SCREEN_PIXELS ==> fb.pixels@[i] == 0,
    {
        let mut pixels: Vec<u32> = Vec::with_capacity(SCREEN_PIXELS);
        let mut i: usize = 0;
        while i < SCREEN_PIXELS
            invariant
                i <= SCREEN_PIXELS,
                pixels@.len() == i,
                forall|j: int| 0 <= j < i ==> pixels@[j] == 0,
            decreases SCREEN_PIXELS - i,
        {
            pixels.push(0);
            i = i + 1;
        }
        Framebuffer { pixels }
    }

    fn clear(&mut self, rgb: [u8; 3])
        requires
            old(self).wf(),
        ensures
            final(self).wf(),
            forall|i: int| 0 <= i < SCREEN_PIXELS ==> final(self).pixels@[i] == pack(rgb@[0], rgb@[1], rgb@[2]),
    {
        let p = pack_rgb(rgb[0], rgb[1], rgb[2]);
        let mut i: usize = 0;
        while i < SCREEN_PIXELS
            invariant
                i <= SCREEN_PIXELS,
                self.pixels@.len() == SCREEN_PIXELS,
                p == pack(rgb@[0], rgb@[1], rgb@[2]),
                forall|j: int| 0 <= j < i ==> self.pixels@[j] == p,
            decreases SCREEN_PIXELS - i,
        {
            self.pixels.set(i, p);
            i = i + 1;
        }
    }

    /// The frame as RGB bytes, three per pixel, row-major (the body of a
    /// binary PPM).
    pub fn rgb_bytes(&self) -> (bytes: Vec<u8>)
        ensures
            bytes@.len() == 3 * self.pixels@.len(),
            forall|i: int|
                0 <= i < self.pixels@.len() ==> {
                    &&& #[trigger] bytes@[3 * i] == (self.pixels@[i] / 65536) % 256
                    &&& bytes@[3 * i + 1] == (self.pixels@[i] / 256) % 256
                    &&& bytes@[3 * i + 2] == self.pixels@[i] % 256
                },
    {
        let mut bytes: Vec<u8> = Vec::new();
        let n = self.pixels.len();
        let mut i: usize = 0;
        while i < n
            invariant
                i <= n,
                n == self.pixels@.len(),
                bytes@.len() == 3 * i,
                forall|k: int|
                    0 <= k < i ==> {
                        &&& #[trigger] bytes@[3 * k] == (self.pixels@[k] / 65536) % 256
                        &&& bytes@[3 * k + 1] == (self.pixels@[k] / 256) % 256
                        &&& bytes@[3 * k + 2] == self.pixels@[k] % 256
                    },
            decreases n - i,
        {
            let px = self.pixels[i];
            let ghost before = bytes@;
            assert((px >> 16) & 0xFF == (px / 65536) % 256 && (px >> 8) & 0xFF == (px / 256) % 256
                && px & 0xFF == px % 256) by (bit_vector);
            bytes.push(((px >> 16) & 0xFF) as u8);
            bytes.push(((px >> 8) & 0xFF) as u8);
            bytes.push((px & 0xFF) as u8);
            assert(bytes@ == before.push(((px >> 16) & 0xFF) as u8).push(((px >> 8) & 0xFF) as u8).push(
                (px & 0xFF) as u8,
            ));
            assert forall|k: int| 0 <= k < i implies #[trigger] bytes@[3 * k] == before[3 * k]
                && bytes@[3 * k + 1] == before[3 * k + 1] && bytes@[3 * k + 2] == before[3 * k
                + 2] by {}
            assert(bytes@[3 * i] == (px / 65536) % 256);
            assert(bytes@[3 * i + 1] == (px / 256) % 256);
            assert(bytes@[3 * i + 2] == px % 256);
            i = i + 1;
        }
        bytes
    }
}

/// Nearest-neighbour pixel (`x`, `y`) of the frame scaled to `w` x `h`.
pub open spec fn scaled_pixel(pixels: Seq<u32>, w: nat, h: nat, x: nat, y: nat) -> u32 {
    pixels[((y * 512 / h) * 640 + x * 640 / w) as int]
}

impl Framebuffer {
    /// The frame scaled to `w` x `h` pixels by nearest neighbour,
    /// row-major.
    pub fn scaled(&self, w: usize, h: usize) -> (out: Vec<u32>)
        requires
            self.wf(),
            w > 0,
            h > 0,
            w * h <= usize::MAX,
            w * 640 <= usize::MAX,
            h * 512 <= usize::MAX,
        ensures
            out@.len() == w * h,
            forall|x: int, y: int|
                0 <= x < w && 0 <= y < h ==> #[trigger] out@[y * w + x] == scaled_pixel(
                    self.pixels@,
                    w as nat,
                    h as nat,
                    x as nat,
                    y as nat,
                ),
    {
        let mut out: Vec<u32> = Vec::with_capacity(w * h);
        let mut y: usize = 0;
        while y < h
            invariant
                self.wf(),
                y <= h,
                w > 0,
                h > 0,
                w * h <= usize::MAX,
                w * 640 <= usize::MAX,
                h * 512 <= usize::MAX,
                out@.len() == y * w,
                forall|xx: int, yy: int|
                    0 <= xx < w && 0 <= yy < y ==> #[trigger] out@[yy * w + xx] == scaled_pixel(
                        self.pixels@,
                        w as nat,
                        h as nat,
                        xx as nat,
                        yy as nat,
                    ),
            decreases h - y,
        {
            assert(y * 512 <= h * 512) by (nonlinear_arith)
                requires
                    y < h,
            ;
            let sy = y * SCREEN_H / h;
            assert(sy < 512) by (nonlinear_arith)
                requires
                    sy == (y * 512) as int / h as int,
                    y < h,
                    h > 0,
            ;
            let ghost row_start = out@.len();
            let mut x: usize = 0;
            while x < w
                invariant
                    self.wf(),
                    x <= w,
                    y < h,
                    w > 0,
                    h > 0,
                    w * 640 <= usize::MAX,
                    sy < 512,
                    sy == (y * 512) as int / h as int,
                    row_start == y * w,
                    out@.len() == y * w + x,
                    forall|xx: int, yy: int|
                        0 <= xx < w && 0 <= yy < y ==> #[trigger] out@[yy * w + xx] == scaled_pixel(
                            self.pixels@,
                            w as nat,
                            h as nat,
                            xx as nat,
                            yy as nat,
                        ),
                    forall|xx: int|
                        0 <= xx < x ==> #[trigger] out@[y * w + xx] == scaled_pixel(
                            self.pixels@,
                            w as nat,
                            h as nat,
                            xx as nat,
                            y as nat,
                        ),
                decreases w - x,
            {
                assert(x * 640 <= w * 640) by (nonlinear_arith)
                    requires
                        x < w,
                ;
                let sx = x * SCREEN_W / w;
                assert(sx < 640) by (nonlinear_arith)
                    requires
                        sx == (x * 640) as int / w as int,
                        x < w,
                        w > 0,
                ;
                let ghost before = out@;
                out.push(self.pixels[sy * SCREEN_W + sx]);
                proof {
                    assert forall|xx: int, yy: int|
                        0 <= xx < w && 0 <= yy < y implies #[trigger] out@[yy * w + xx]
                        == scaled_pixel(self.pixels@, w as nat, h as nat, xx as nat, yy as nat) by {
                        assert(yy * w + xx < y * w) by (nonlinear_arith)
                            requires
                                0 <= xx < w,
                                0 <= yy < y,
                        ;
                        assert(out@[yy * w + xx] == before[yy * w + xx]);
                    }
                }
                x = x + 1;
            }
            assert((y + 1) * w == y * w + w) by (nonlinear_arith);
            proof {
                assert forall|xx: int, yy: int|
                    0 <= xx < w && 0 <= yy < y + 1 implies #[trigger] out@[yy * w + xx]
                    == scaled_pixel(self.pixels@, w as nat, h as nat, xx as nat, yy as nat) by {
                    if yy < y {
                    } else {
                        assert(yy == y);
                    }
                }
            }
            y = y + 1;
        }
        assert(h * w == w * h) by (nonlinear_arith);
        out
    }
}

// ---------------------------------------------------------------- bitmap

/// Logical colour of horizontal position `c` of a screen byte in ULA mode
/// `mode` (control bits 3-2): the byte is shifted left (filling with ones)
/// by the position scaled to the mode, then bits 7, 5, 3, 1 form the
/// four-bit logical colour.
pub open spec fn logical_colour(byte: u8, mode: u8, c: u32) -> u8 {
    let inner: u32 = if mode == 3 {
        c
    } else if mode == 2 {
        c / 2
    } else if mode == 1 {
        c / 4
    } else {
        c / 8
    };
    let inner = if inner > 15 { 15u32 } else { inner };
    let shifted: u8 = if inner == 0 {
        byte
    } else {
        (((byte as u16) << (inner as u16)) | ((1u16 << (inner as u16)) - 1) as u16) as u8
    };
    (((shifted >> 7) & 1) << 3) | (((shifted >> 5) & 1) << 2) | (((shifted >> 3) & 1) << 1) | ((
    shifted >> 1) & 1)
}

/// Packed colour of a palette entry.
pub open spec fn palette_pixel(ula: VideoUla, logical: u8) -> u32 {
    let rgb = physical_rgb(ula.palette@[(logical % 16) as int]);
    pack(rgb[0], rgb[1], rgb[2])
}

/// Horizontal pixels per screen byte: 8 with the 2 MHz CRTC clock, else 16.
pub open spec fn positions_per_byte(ula: VideoUla) -> u32 {
    if ula.control & 0x10 != 0 { 8 } else { 16 }
}

/// Vertical scale making a character row 16 pixels high (at least 1).
pub open spec fn vertical_scale(scanlines: u32) -> u32 {
    let s = 16u32 / scanlines;
    if s < 1 { 1 } else { s }
}

/// Pixel (`x`, `y`) of a bitmap-mode frame: the character cell under it,
/// the raster line within the cell and the position within the byte pick a
/// screen byte and its logical colour; outside the displayed area, black.
pub open spec fn bitmap_pixel(ram: Seq<u8>, regs: Seq<u8>, ula: VideoUla, x: u32, y: u32) -> u32 {
    let cols = regs[1] as u32;
    let rows = regs[6] as u32;
    let scanlines = (regs[9] + 1) as u32;
    let ppb = positions_per_byte(ula);
    let scale = vertical_scale(scanlines);
    let col = x / ppb;
    let c = x % ppb;
    let q = y / scale;
    let row = q / scanlines;
    let line = q % scanlines;
    if col < cols && row < rows {
        let ma = ((start_address(regs) + row * cols + col) % 65536) as u16;
        let phys = screen_address(ma, line as u16, screen_size_bytes(ula.screen_size_code));
        palette_pixel(ula, logical_colour(ram[phys as int], (ula.control / 4) % 4, c))
    } else {
        0
    }
}

fn logical_colour_exec(byte: u8, mode: u8, c: u32) -> (l: u8)
    requires
        c < 16,
    ensures
        l == logical_colour(byte, mode, c),
{
    let inner: u32 = if mode == 3 {
        c
    } else if mode == 2 {
        c / 2
    } else if mode == 1 {
        c / 4
    } else {
        c / 8
    };
    let inner: u32 = if inner > 15 { 15 } else { inner };
    let shifted: u8 = if inner == 0 {
        byte
    } else {
        let i16v = inner as u16;
        assert(1u16 << i16v >= 1) by (bit_vector)
            requires
                i16v <= 15,
        ;
        (((byte as u16) << i16v) | ((1u16 << i16v) - 1)) as u8
    };
    (((shifted >> 7) & 1) << 3) | (((shifted >> 5) & 1) << 2) | (((shifted >> 3) & 1) << 1) | ((
    shifted >> 1) & 1)
}

fn palette_pixel_exec(ula: &VideoUla, logical: u8) -> (p: u32)
    ensures
        p == palette_pixel(*ula, logical),
{
    let rgb = ula.resolve_color(logical);
    pack_rgb(rgb[0], rgb[1], rgb[2])
}

// -------------------------------------------------------------- teletext

/// Teletext row state: foreground colour (bit 0 R, 1 G, 2 B), graphics,
/// separated graphics, held graphics character.
#[derive(Clone, Copy)]
pub struct TeletextState {
    pub fg: u8,
    pub graphics: bool,
    pub separated: bool,
    pub hold: u8,
}

/// State at the start of every row: white alphanumerics.
pub open spec fn row_start() -> TeletextState {
    TeletextState { fg: 7, graphics: false, separated: false, hold: 0x20 }
}

/// Character shown for code `code` in state `s`: control codes show as a
/// space, or as the held character in graphics mode.
pub open spec fn shown_code(s: TeletextState, code: u8) -> u8 {
    if code < 0x20 {
        if s.graphics { s.hold } else { 0x20 }
    } else {
        code
    }
}

/// State after the character `code`: codes 1-7 select an alphanumeric
/// colour, 0x11-0x17 a graphics colour, 0x10 leaves graphics, 0x19/0x1A
/// select contiguous / separated graphics.
pub open spec fn next_state(s: TeletextState, code: u8) -> TeletextState {
    let shown = shown_code(s, code);
    let hold = if code < 0x20 && s.graphics && shown >= 0x20 { shown } else { s.hold };
    if code >= 0x20 {
        s
    } else if 0x01 <= code <= 0x07 {
        TeletextState { fg: code, hold, ..s }
    } else if 0x11 <= code <= 0x17 {
        TeletextState { fg: (code - 0x10) as u8, graphics: true, hold, ..s }
    } else if code == 0x10 {
        TeletextState { graphics: false, hold, ..s }
    } else if code == 0x19 {
        TeletextState { separated: false, hold, ..s }
    } else if code == 0x1A {
        TeletextState { separated: true, hold, ..s }
    } else {
        TeletextState { hold, ..s }
    }
}

/// Address of character (`row`, `col`) of the 1 KiB teletext page at $7C00.
pub open spec fn teletext_addr(offset: u16, cols: u32, row: u32, col: u32) -> u16 {
    ((0x7C00 + offset + row * cols + col) % 65536) as u16
}

/// Character code (7 bits) at (`row`, `col`).
pub open spec fn teletext_code(ram: Seq<u8>, offset: u16, cols: u32, row: u32, col: u32) -> u8 {
    ram[(teletext_addr(offset, cols, row, col) % 32768) as int] & 0x7F
}

/// Row state before column `col` of row `row`.
pub open spec fn state_before(ram: Seq<u8>, offset: u16, cols: u32, row: u32, col: nat) -> TeletextState
    decreases col,
{
    if col == 0 {
        row_start()
    } else {
        next_state(
            state_before(ram, offset, cols, row, (col - 1) as nat),
            teletext_code(ram, offset, cols, row, (col - 1) as u32),
        )
    }
}

/// Packed colour of a teletext colour number.
pub open spec fn teletext_colour(fg: u8) -> u32 {
    pack(
        if fg & 1 != 0 { 255 } else { 0 },
        if fg & 2 != 0 { 255 } else { 0 },
        if fg & 4 != 0 { 255 } else { 0 },
    )
}

/// Pixel (`dx`, `dy`) of an alphanumeric cell: the 8x8 glyph doubled in
/// both directions with two blank rows above and below.
pub open spec fn alpha_pixel(font: Seq<u8>, ch: u8, fg: u8, dx: u32, dy: u32) -> u32 {
    let base: int = if 0x20 <= ch < 0x80 { (ch - 0x20) * 8 } else { 0 };
    if dy < 2 || dy >= 18 {
        0
    } else {
        let r = (dy - 2) / 2;
        let c = dx / 2;
        if font[base + r] & (0x80u8 >> (c as u8)) != 0 {
            teletext_colour(fg)
        } else {
            0
        }
    }
}

/// Mask of the block-graphics bit lighting sub-cell (`r`, `c`) of the 2 x 3
/// grid (bits 0-4 and 6).
pub open spec fn sixel_mask(r: u32, c: u32) -> u8 {
    let i = r * 2 + c;
    if i == 0 {
        0x01
    } else if i == 1 {
        0x02
    } else if i == 2 {
        0x04
    } else if i == 3 {
        0x08
    } else if i == 4 {
        0x10
    } else {
        0x40
    }
}

/// Pixel (`dx`, `dy`) of a block-graphics cell: sub-cells 8 wide and 7, 6,
/// 7 high; separated graphics leave a one-pixel border in each.
pub open spec fn graphics_pixel(ch: u8, separated: bool, fg: u8, dx: u32, dy: u32) -> u32 {
    let (r, top, h) = if dy < 7 {
        (0u32, 0u32, 7u32)
    } else if dy < 13 {
        (1u32, 7u32, 6u32)
    } else {
        (2u32, 13u32, 7u32)
    };
    let c = dx / 8;
    let ix = dx % 8;
    let iy = dy - top;
    let inset: u32 = if separated { 1 } else { 0 };
    let lit = ch & sixel_mask(r, c) != 0;
    if lit && iy >= inset && iy < h - inset && ix >= inset && ix < 8 - inset {
        teletext_colour(fg)
    } else {
        0
    }
}

/// In a contiguous block-graphics cell, the pixel at (`dx`, `dy`) lies in
/// sub-cell row `r` (pixel rows 0-6, 7-12, 13-19) and column `c` (pixel
/// columns 0-7, 8-15), and is lit exactly when bit `2r + c` of the
/// character is set, counting bits 0-4 and then bit 6 (bit 5 picks no
/// sub-cell): in the foreground colour when lit, black otherwise.
/// Separated graphics light only the inside of a sub-cell, leaving its
/// outermost pixel rows and columns black.
pub proof fn lemma_graphics_sub_cells(ch: u8, fg: u8, dx: u32, dy: u32)
    requires
        dx < 16,
        dy < 20,
    ensures
        ({
            let r: u32 = if dy < 7 { 0 } else if dy < 13 { 1 } else { 2 };
            let i = 2 * r + dx / 8;
            let bit: u8 = if i < 5 { i as u8 } else { 6 };
            let top: u32 = if dy < 7 { 0 } else if dy < 13 { 7 } else { 13 };
            let bottom: u32 = if dy < 7 { 7 } else if dy < 13 { 13 } else { 20 };
            let inner = top < dy && dy + 1 < bottom && 0 < dx % 8 && dx % 8 < 7;
            &&& graphics_pixel(ch, false, fg, dx, dy) == if (ch >> bit) & 1 == 1 {
                teletext_colour(fg)
            } else {
                0
            }
            &&& graphics_pixel(ch, true, fg, dx, dy) == if (ch >> bit) & 1 == 1 && inner {
                teletext_colour(fg)
            } else {
                0
            }
        }),
{
    assert((ch & 0x01 != 0) == ((ch >> 0u8) & 1 == 1) && (ch & 0x02 != 0) == ((ch >> 1u8) & 1 == 1)
        && (ch & 0x04 != 0) == ((ch >> 2u8) & 1 == 1) && (ch & 0x08 != 0) == ((ch >> 3u8) & 1
        == 1) && (ch & 0x10 != 0) == ((ch >> 4u8) & 1 == 1) && (ch & 0x40 != 0) == ((ch >> 6u8)
        & 1 == 1)) by (bit_vector);
}

/// Teletext colour `n`: bit 0 turns red fully on, bit 1 green, bit 2 blue
/// (0x00RRGGBB).
pub proof fn lemma_teletext_colour_channels(fg: u8)
    ensures
        teletext_colour(fg) == (if fg & 1 != 0 { 0xFF0000u32 } else { 0 }) + (if fg & 2 != 0 {
            0x00FF00u32
        } else {
            0
        }) + (if fg & 4 != 0 { 0x0000FFu32 } else { 0 }),
{
}

/// Control codes along a row: `n` (1-7) selects alphanumeric colour `n`,
/// `0x10 + n` graphics in colour `n`, 0x10 leaves graphics, 0x19 and 0x1A
/// select contiguous and separated graphics; a control code shows as a
/// space, or in graphics as the last graphics character; printable codes
/// change nothing and show as themselves.
pub proof fn lemma_teletext_control_codes(s: TeletextState, code: u8)
    ensures
        code >= 0x20 ==> next_state(s, code) == s && shown_code(s, code) == code,
        code < 0x20 ==> shown_code(s, code) == if s.graphics { s.hold } else { 0x20 },
        1 <= code <= 7 ==> next_state(s, code).fg == code && next_state(s, code).graphics
            == s.graphics && next_state(s, code).separated == s.separated,
        0x11 <= code <= 0x17 ==> next_state(s, code).fg == code - 0x10 && next_state(
            s,
            code,
        ).graphics && next_state(s, code).separated == s.separated,
        code == 0x10 ==> !next_state(s, code).graphics && next_state(s, code).fg == s.fg,
        code == 0x19 ==> !next_state(s, code).separated && next_state(s, code).fg == s.fg
            && next_state(s, code).graphics == s.graphics,
        code == 0x1A ==> next_state(s, code).separated && next_state(s, code).fg == s.fg
            && next_state(s, code).graphics == s.graphics,
{
}

/// Pixel (`dx`, `dy`) of the cell showing `code` in state `s`.
pub open spec fn cell_pixel(font: Seq<u8>, s: TeletextState, code: u8, dx: u32, dy: u32) -> u32 {
    let shown = shown_code(s, code);
    if shown >= 0x20 {
        if s.graphics && shown != 0x20 {
            graphics_pixel(shown, s.separated, s.fg, dx, dy)
        } else {
            alpha_pixel(font, shown, s.fg, dx, dy)
        }
    } else {
        0
    }
}

/// Columns and rows of the teletext page (at most 40 x 25).
pub open spec fn teletext_cols(regs: Seq<u8>) -> u32 {
    if regs[1] < 40 { regs[1] as u32 } else { 40 }
}

pub open spec fn teletext_rows(regs: Seq<u8>) -> u32 {
    if regs[6] < 25 { regs[6] as u32 } else { 25 }
}

/// Pixel (`x`, `y`) of a teletext frame: the cell under it, inverted when
/// it holds the visible cursor; black outside the page.
pub open spec fn teletext_pixel(
    ram: Seq<u8>,
    font: Seq<u8>,
    regs: Seq<u8>,
    cursor_on: bool,
    x: u32,
    y: u32,
) -> u32 {
    let cols = teletext_cols(regs);
    let rows = teletext_rows(regs);
    let col = x / 16;
    let row = y / 20;
    if col < cols && row < rows {
        let offset = (start_address(regs) % 1024) as u16;
        let s = state_before(ram, offset, cols, row, col as nat);
        let code = teletext_code(ram, offset, cols, row, col);
        let p = cell_pixel(font, s, code, x % 16, y % 20);
        let cursor = (((regs[14] & 0x3F) as u16) << 8) | (regs[15] as u16);
        if teletext_addr(offset, cols, row, col) == (0x7C00 + cursor % 1024) as u16 && cursor_on {
            p ^ 0x00FF_FFFF
        } else {
            p
        }
    } else {
        0
    }
}

/// Pixel `i` (row-major) of frame number `frame_count`: teletext when the
/// ULA selects it (control bit 1), else the bitmap modes.
pub open spec fn frame_pixel(
    font: Seq<u8>,
    frame_count: u32,
    ram: Seq<u8>,
    regs: Seq<u8>,
    ula: VideoUla,
    i: int,
) -> u32 {
    if ula.control & 0x02 != 0 {
        teletext_pixel(
            ram,
            font,
            regs,
            cursor_shown(regs, frame_count),
            (i % 640) as u32,
            (i / 640) as u32,
        )
    } else {
        bitmap_pixel(ram, regs, ula, (i % 640) as u32, (i / 640) as u32)
    }
}

pub struct Renderer {
    pub frame_count: u32,
    /// 8x8 glyphs of characters $20-$7F, from the MOS ROM at $C000.
    pub font: [u8; 768],
}

/// Whether the cursor shows in frame `frame_count` (R10 bits 6-5).
pub open spec fn cursor_shown(regs: Seq<u8>, frame_count: u32) -> bool {
    let mode = (regs[10] >> 5) & 3;
    if mode == 0 {
        true
    } else if mode == 1 {
        false
    } else if mode == 2 {
        (frame_count / 16) % 2 == 0
    } else {
        (frame_count / 8) % 2 == 0
    }
}

impl Renderer {
    pub fn new() -> (r: Self)
        ensures
            r.frame_count == 0,
            r.font@ == Seq::new(768, |i: int| 0u8),
    {
        let r = Renderer { frame_count: 0, font: [0u8; 768] };
        assert(r.font@ =~= Seq::new(768, |i: int| 0u8));
        r
    }

    /// Copy the character set from the start of a MOS image (as many bytes
    /// as fit).
    pub fn set_font_from_mos(&mut self, mos: &[u8])
        ensures
            final(self).frame_count == old(self).frame_count,
            forall|i: int|
                0 <= i < 768 ==> #[trigger] final(self).font@[i] == if i < mos@.len() {
                    mos@[i]
                } else {
                    old(self).font@[i]
                },
    {
        let n = if mos.len() < 768 { mos.len() } else { 768 };
        let mut i: usize = 0;
        while i < n
            invariant
                i <= n,
                n <= 768,
                n <= mos@.len(),
                n == mos@.len() || n == 768,
                self.frame_count == old(self).frame_count,
                forall|j: int|
                    0 <= j < 768 ==> #[trigger] self.font@[j] == if j < i {
                        mos@[j]
                    } else {
                        old(self).font@[j]
                    },
            decreases n - i,
        {
            self.font[i] = mos[i];
            i = i + 1;
        }
    }

    /// Render one frame (counting it for cursor blinking).
    pub fn render(&mut self, fb: &mut Framebuffer, ram: &[u8], crtc: &Crtc6845, ula: &VideoUla)
        requires
            old(fb).wf(),
            ram@.len() >= 0x8000,
        ensures
            final(fb).wf(),
            final(self).frame_count == (old(self).frame_count + 1) % 0x1_0000_0000,
            final(self).font == old(self).font,
            forall|i: int|
                0 <= i < SCREEN_PIXELS ==> #[trigger] final(fb).pixels@[i] == frame_pixel(
                    old(self).font@,
                    final(self).frame_count,
                    ram@,
                    crtc.regs@,
                    *ula,
                    i,
                ),
    {
        self.frame_count = self.frame_count.wrapping_add(1);
        fb.clear([0, 0, 0]);
        if ula.teletext_mode() {
            self.render_teletext(fb, ram, crtc);
        } else {
            self.render_bitmap(fb, ram, crtc, ula);
        }
    }

    fn render_bitmap(&self, fb: &mut Framebuffer, ram: &[u8], crtc: &Crtc6845, ula: &VideoUla)
        requires
            old(fb).wf(),
            ram@.len() >= 0x8000,
        ensures
            final(fb).wf(),
            forall|i: int|
                0 <= i < SCREEN_PIXELS ==> #[trigger] final(fb).pixels@[i] == bitmap_pixel(
                    ram@,
                    crtc.regs@,
                    *ula,
                    (i % 640) as u32,
                    (i / 640) as u32,
                ),
    {
        let cols = crtc.horizontal_displayed() as u32;
        let rows = crtc.vertical_displayed() as u32;
        let scanlines = crtc.scanlines_per_char_row() as u32;
        let start = crtc.display_start_crtc_addr();
        let screen_off = ula.screen_size_offset();
        let c = ula.control;
        assert((c >> 2) & 3 == (c / 4) % 4) by {
            crate::bits::lemma_byte_fields(c);
        }
        let ula_mode = (ula.control >> 2) & 3;
        let ppb: u32 = if ula.high_clock() { 8 } else { 16 };
        let s16 = 16 / scanlines;
        let scale: u32 = if s16 < 1 { 1 } else { s16 };
        let mut i: usize = 0;
        while i < SCREEN_PIXELS
            invariant
                i <= SCREEN_PIXELS,
                fb.pixels@.len() == SCREEN_PIXELS,
                ram@.len() >= 0x8000,
                cols == crtc.regs@[1],
                rows == crtc.regs@[6],
                scanlines == crtc.regs@[9] + 1,
                start == start_address(crtc.regs@),
                screen_off == screen_size_bytes(ula.screen_size_code),
                ula_mode == (ula.control / 4) % 4,
                ppb == positions_per_byte(*ula),
                scale == vertical_scale(scanlines),
                forall|j: int|
                    0 <= j < i ==> #[trigger] fb.pixels@[j] == bitmap_pixel(
                        ram@,
                        crtc.regs@,
                        *ula,
                        (j % 640) as u32,
                        (j / 640) as u32,
                    ),
            decreases SCREEN_PIXELS - i,
        {
            let x = (i % SCREEN_W) as u32;
            let y = (i / SCREEN_W) as u32;
            let col = x / ppb;
            let cpos = x % ppb;
            let q = y / scale;
            let row = q / scanlines;
            let line = q % scanlines;
            let px: u32 = if col < cols && row < rows {
                assert(row * cols <= 255 * 255) by (nonlinear_arith)
                    requires
                        row < rows,
                        rows <= 255,
                        cols <= 255,
                ;
                let ma = ((start as u32 + row * cols + col) % 65536) as u16;
                let phys = Crtc6845::bbc_screen_addr(ma, line as u16, screen_off);
                let byte = ram[phys as usize];
                let logical = logical_colour_exec(byte, ula_mode, cpos);
                palette_pixel_exec(ula, logical)
            } else {
                0
            };
            fb.pixels.set(i, px);
            i = i + 1;
        }
    }

    fn render_teletext(&self, fb: &mut Framebuffer, ram: &[u8], crtc: &Crtc6845)
        requires
            old(fb).wf(),
            ram@.len() >= 0x8000,
        ensures
            final(fb).wf(),
            forall|i: int|
                0 <= i < SCREEN_PIXELS ==> #[trigger] final(fb).pixels@[i] == teletext_pixel(
                    ram@,
                    self.font@,
                    crtc.regs@,
                    cursor_shown(crtc.regs@, self.frame_count),
                    (i % 640) as u32,
                    (i / 640) as u32,
                ),
    {
        let hd = crtc.horizontal_displayed();
        let vd = crtc.vertical_displayed();
        let cols: u32 = if hd < 40 { hd as u32 } else { 40 };
        let rows: u32 = if vd < 25 { vd as u32 } else { 25 };
        let offset: u16 = crtc.display_start_crtc_addr() % 1024;
        let cursor = crtc.cursor_crtc_addr();
        let cursor_target: u16 = 0x7C00 + cursor % 1024;
        let cursor_on = crtc.cursor_visible(self.frame_count);
        let (states, codes) = teletext_cells(ram, offset, cols, rows);
        let mut i: usize = 0;
        while i < SCREEN_PIXELS
            invariant
                i <= SCREEN_PIXELS,
                fb.pixels@.len() == SCREEN_PIXELS,
                ram@.len() >= 0x8000,
                cols == teletext_cols(crtc.regs@),
                rows == teletext_rows(crtc.regs@),
                offset == (start_address(crtc.regs@) % 1024) as u16,
                cursor == (((crtc.regs@[14] & 0x3F) as u16) << 8) | (crtc.regs@[15] as u16),
                cursor_target == (0x7C00 + cursor % 1024) as u16,
                cursor_on == cursor_shown(crtc.regs@, self.frame_count),
                states@.len() == rows * cols,
                codes@.len() == rows * cols,
                forall|j: int|
                    0 <= j < rows * cols ==> #[trigger] states@[j] == state_before(
                        ram@,
                        offset,
                        cols,
                        (j / cols as int) as u32,
                        (j % cols as int) as nat,
                    ),
                forall|j: int|
                    0 <= j < rows * cols ==> #[trigger] codes@[j] == teletext_code(
                        ram@,
                        offset,
                        cols,
                        (j / cols as int) as u32,
                        (j % cols as int) as u32,
                    ),
                forall|j: int|
                    0 <= j < i ==> #[trigger] fb.pixels@[j] == teletext_pixel(
                        ram@,
                        self.font@,
                        crtc.regs@,
                        cursor_on,
                        (j % 640) as u32,
                        (j / 640) as u32,
                    ),
            decreases SCREEN_PIXELS - i,
        {
            let x = (i % SCREEN_W) as u32;
            let y = (i / SCREEN_W) as u32;
            let col = x / 16;
            let row = y / 20;
            let px: u32 = if col < cols && row < rows {
                assert(row * cols + col < rows * cols) by (nonlinear_arith)
                    requires
                        row < rows,
                        col < cols,
                ;
                assert(rows * cols <= 1000) by (nonlinear_arith)
                    requires
                        rows <= 25,
                        cols <= 40,
                ;
                let idx = (row * cols + col) as usize;
                proof {
                    vstd::arithmetic::div_mod::lemma_fundamental_div_mod_converse(
                        idx as int,
                        cols as int,
                        row as int,
                        col as int,
                    );
                }
                let s = states[idx];
                let code = codes[idx];
                let p = cell_pixel_exec(&self.font, s, code, x % 16, y % 20);
                let addr = teletext_addr_exec(offset, cols, row, col);
                if addr == cursor_target && cursor_on {
                    p ^ 0x00FF_FFFF
                } else {
                    p
                }
            } else {
                0
            };
            fb.pixels.set(i, px);
            i = i + 1;
        }
    }
}

fn teletext_addr_exec(offset: u16, cols: u32, row: u32, col: u32) -> (a: u16)
    requires
        offset < 1024,
        cols <= 40,
        row < 25,
        col < 40,
    ensures
        a == teletext_addr(offset, cols, row, col),
{
    assert(row * cols <= 1000) by (nonlinear_arith)
        requires
            row < 25,
            cols <= 40,
    ;
    ((0x7C00u32 + offset as u32 + row * cols + col) % 65536) as u16
}

/// Per-cell row state and character code of the teletext page, row-major.
fn teletext_cells(ram: &[u8], offset: u16, cols: u32, rows: u32) -> (cells: (
    Vec<TeletextState>,
    Vec<u8>,
))
    requires
        ram@.len() >= 0x8000,
        offset < 1024,
        cols <= 40,
        rows <= 25,
    ensures
        cells.0@.len() == rows * cols,
        cells.1@.len() == rows * cols,
        forall|j: int|
            0 <= j < rows * cols ==> #[trigger] cells.0@[j] == state_before(
                ram@,
                offset,
                cols,
                (j / cols as int) as u32,
                (j % cols as int) as nat,
            ),
        forall|j: int|
            0 <= j < rows * cols ==> #[trigger] cells.1@[j] == teletext_code(
                ram@,
                offset,
                cols,
                (j / cols as int) as u32,
                (j % cols as int) as u32,
            ),
{
    let mut states: Vec<TeletextState> = Vec::new();
    let mut codes: Vec<u8> = Vec::new();
    if cols == 0 {
        assert(rows * cols == 0) by (nonlinear_arith)
            requires
                cols == 0,
        ;
        return (states, codes);
    }
    assert(rows * cols <= 1000) by (nonlinear_arith)
        requires
            rows <= 25,
            cols <= 40,
    ;
    let n: usize = (rows * cols) as usize;
    let mut k: usize = 0;
    let mut row: u32 = 0;
    let mut col: u32 = 0;
    let mut cur = TeletextState { fg: 7, graphics: false, separated: false, hold: 0x20 };
    while k < n
        invariant
            ram@.len() >= 0x8000,
            offset < 1024,
            0 < cols <= 40,
            rows <= 25,
            n == rows * cols,
            k <= n,
            col < cols,
            k == row * cols + col,
            states@.len() == k,
            codes@.len() == k,
            cur == state_before(ram@, offset, cols, row, col as nat),
            forall|j: int|
                0 <= j < k ==> #[trigger] states@[j] == state_before(
                    ram@,
                    offset,
                    cols,
                    (j / cols as int) as u32,
                    (j % cols as int) as nat,
                ),
                forall|j: int|
                    0 <= j < k ==> #[trigger] codes@[j] == teletext_code(
                    ram@,
                    offset,
                    cols,
                    (j / cols as int) as u32,
                    (j % cols as int) as u32,
                ),
        decreases n - k,
    {
        assert(row < rows) by (nonlinear_arith)
            requires
                row * cols + col < rows * cols,
                col >= 0,
                cols > 0,
        ;
        let addr = teletext_addr_exec(offset, cols, row, col);
        let code = ram[(addr % 32768) as usize] & 0x7F;
        proof {
            vstd::arithmetic::div_mod::lemma_fundamental_div_mod_converse(
                k as int,
                cols as int,
                row as int,
                col as int,
            );
        }
        states.push(cur);
        codes.push(code);
        if col + 1 == cols {
            assert((row + 1) * cols == row * cols + cols) by (nonlinear_arith);
            row = row + 1;
            col = 0;
            cur = TeletextState { fg: 7, graphics: false, separated: false, hold: 0x20 };
        } else {
            cur = next_state_exec(cur, code);
            col = col + 1;
        }
        k = k + 1;
    }
    (states, codes)
}

fn teletext_colour_exec(fg: u8) -> (p: u32)
    ensures
        p == teletext_colour(fg),
{
    let r: u8 = if fg & 1 != 0 { 255 } else { 0 };
    let g: u8 = if fg & 2 != 0 { 255 } else { 0 };
    let b: u8 = if fg & 4 != 0 { 255 } else { 0 };
    pack_rgb(r, g, b)
}

fn shown_code_exec(s: TeletextState, code: u8) -> (c: u8)
    ensures
        c == shown_code(s, code),
{
    if code < 0x20 {
        if s.graphics { s.hold } else { 0x20 }
    } else {
        code
    }
}

fn next_state_exec(s: TeletextState, code: u8) -> (n: TeletextState)
    ensures
        n == next_state(s, code),
{
    let shown = shown_code_exec(s, code);
    let hold = if code < 0x20 && s.graphics && shown >= 0x20 { shown } else { s.hold };
    if code >= 0x20 {
        s
    } else if 0x01 <= code && code <= 0x07 {
        TeletextState { fg: code, hold, ..s }
    } else if 0x11 <= code && code <= 0x17 {
        TeletextState { fg: code - 0x10, graphics: true, hold, ..s }
    } else if code == 0x10 {
        TeletextState { graphics: false, hold, ..s }
    } else if code == 0x19 {
        TeletextState { separated: false, hold, ..s }
    } else if code == 0x1A {
        TeletextState { separated: true, hold, ..s }
    } else {
        TeletextState { hold, ..s }
    }
}

fn alpha_pixel_exec(font: &[u8; 768], ch: u8, fg: u8, dx: u32, dy: u32) -> (p: u32)
    requires
        dx < 16,
        dy < 20,
    ensures
        p == alpha_pixel(font@, ch, fg, dx, dy),
{
    let base: usize = if 0x20 <= ch && ch < 0x80 { (ch - 0x20) as usize * 8 } else { 0 };
    if dy < 2 || dy >= 18 {
        0
    } else {
        let r = ((dy - 2) / 2) as usize;
        let c = dx / 2;
        if font[base + r] & (0x80u8 >> (c as u8)) != 0 {
            teletext_colour_exec(fg)
        } else {
            0
        }
    }
}

fn sixel_mask_exec(r: u32, c: u32) -> (m: u8)
    requires
        r < 3,
        c < 2,
    ensures
        m == sixel_mask(r, c),
{
    let i = r * 2 + c;
    if i == 0 {
        0x01
    } else if i == 1 {
        0x02
    } else if i == 2 {
        0x04
    } else if i == 3 {
        0x08
    } else if i == 4 {
        0x10
    } else {
        0x40
    }
}

fn graphics_pixel_exec(ch: u8, separated: bool, fg: u8, dx: u32, dy: u32) -> (p: u32)
    requires
        dx < 16,
        dy < 20,
    ensures
        p == graphics_pixel(ch, separated, fg, dx, dy),
{
    let (r, top, h): (u32, u32, u32) = if dy < 7 {
        (0, 0, 7)
    } else if dy < 13 {
        (1, 7, 6)
    } else {
        (2, 13, 7)
    };
    let c = dx / 8;
    let ix = dx % 8;
    let iy = dy - top;
    let inset: u32 = if separated { 1 } else { 0 };
    let lit = ch & sixel_mask_exec(r, c) != 0;
    if lit && iy >= inset && iy < h - inset && ix >= inset && ix < 8 - inset {
        teletext_colour_exec(fg)
    } else {
        0
    }
}

fn cell_pixel_exec(font: &[u8; 768], s: TeletextState, code: u8, dx: u32, dy: u32) -> (p: u32)
    requires
        dx < 16,
        dy < 20,
    ensures
        p == cell_pixel(font@, s, code, dx, dy),
{
    let shown = shown_code_exec(s, code);
    if shown >= 0x20 {
        if s.graphics && shown != 0x20 {
            graphics_pixel_exec(shown, s.separated, s.fg, dx, dy)
        } else {
            alpha_pixel_exec(font, shown, s.fg, dx, dy)
        }
    } else {
        0
    }
}

impl Default for Framebuffer {
    fn default() -> (fb: Self)
        ensures
            fb.wf(),
            forall|i: int| 0 <= i < SCREEN_PIXELS ==> fb.pixels@[i] == 0,
    {
        Framebuffer::new()
    }
}

impl Default for Renderer {
    fn default() -> (r: Self)
        ensures
            r.frame_count == 0,
            r.font@ == Seq::new(768, |i: int| 0u8),
    {
        Renderer::new()
    }
}

} // verus!
