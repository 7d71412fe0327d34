//! Teletext rendering, scaling and pixel export.

use bbc_micro_emu::renderer::{SCREEN_H, SCREEN_W};
use bbc_micro_emu::{Crtc6845, Framebuffer, Renderer, VideoUla};

fn mode7() -> (Crtc6845, VideoUla, Vec<u8>, Renderer) {
    let mut crtc = Crtc6845::new();
    for (r, v) in [(1u8, 40u8), (6, 25), (9, 18), (10, 0x20), (12, 0x28), (13, 0)] {
        crtc.write(0, r);
        crtc.write(1, v);
    }
    let mut ula = VideoUla::new();
    ula.control = 0x02;
    let ram = vec![0x20u8; 0x8000];
    let mut renderer = Renderer::new();
    // Glyph for 'A' (code $41): a solid top row.
    let mut font = vec![0u8; 768];
    font[(0x41 - 0x20) * 8] = 0xFF;
    renderer.set_font_from_mos(&font);
    (crtc, ula, ram, renderer)
}

#[test]
fn teletext_alpha_glyph_is_doubled_in_white() {
    let (crtc, ula, mut ram, mut renderer) = mode7();
    ram[0x7C00] = b'A';
    let mut fb = Framebuffer::new();
    renderer.render(&mut fb, &ram, &crtc, &ula);
    // Rows 0-1 of the cell are blank, glyph row 0 covers rows 2-3.
    assert_eq!(fb.pixels[0], 0);
    assert_eq!(fb.pixels[2 * SCREEN_W], 0x00FF_FFFF);
    assert_eq!(fb.pixels[3 * SCREEN_W + 15], 0x00FF_FFFF);
    assert_eq!(fb.pixels[4 * SCREEN_W], 0);
    // The next cell is a space.
    assert_eq!(fb.pixels[2 * SCREEN_W + 16], 0);
}

#[test]
fn teletext_colour_code_changes_following_characters() {
    let (crtc, ula, mut ram, mut renderer) = mode7();
    ram[0x7C00] = 0x01; // alphanumeric red
    ram[0x7C01] = b'A';
    let mut fb = Framebuffer::new();
    renderer.render(&mut fb, &ram, &crtc, &ula);
    // The control code shows as a space; the letter is red.
    assert_eq!(fb.pixels[2 * SCREEN_W], 0);
    assert_eq!(fb.pixels[2 * SCREEN_W + 16], 0x00FF_0000);
}

#[test]
fn teletext_graphics_blocks_fill_sixels() {
    let (crtc, ula, mut ram, mut renderer) = mode7();
    ram[0x7C00] = 0x12; // graphics green
    ram[0x7C01] = 0x21; // sixel 0 (top left) lit
    let mut fb = Framebuffer::new();
    renderer.render(&mut fb, &ram, &crtc, &ula);
    assert_eq!(fb.pixels[16], 0x0000_FF00);
    assert_eq!(fb.pixels[6 * SCREEN_W + 16 + 7], 0x0000_FF00);
    assert_eq!(fb.pixels[16 + 8], 0);
    assert_eq!(fb.pixels[7 * SCREEN_W + 16], 0);
}

#[test]
fn teletext_cursor_inverts_its_cell() {
    let (mut crtc, ula, ram, mut renderer) = mode7();
    crtc.write(0, 10);
    crtc.write(1, 0x00); // cursor always on
    crtc.write(0, 14);
    crtc.write(1, 0x00);
    crtc.write(0, 15);
    crtc.write(1, 41); // row 1, column 1
    let mut fb = Framebuffer::new();
    renderer.render(&mut fb, &ram, &crtc, &ula);
    assert_eq!(fb.pixels[20 * SCREEN_W + 16], 0x00FF_FFFF);
    assert_eq!(fb.pixels[20 * SCREEN_W + 15], 0);
    assert_eq!(renderer.frame_count, 1);
}

#[test]
fn scaled_frame_picks_nearest_pixels() {
    let mut fb = Framebuffer::new();
    fb.pixels[0] = 1;
    fb.pixels[SCREEN_W - 1] = 2;
    fb.pixels[(SCREEN_H - 1) * SCREEN_W] = 3;
    let out = fb.scaled(320, 256);
    assert_eq!(out.len(), 320 * 256);
    assert_eq!(out[0], 1);
    assert_eq!(out[319], 0); // source x = 638
    let big = fb.scaled(1280, 1024);
    assert_eq!(big[1], 1);
    assert_eq!(big[1279], 2);
    assert_eq!(big[1023 * 1280], 3);
}

#[test]
fn rgb_bytes_split_channels() {
    let mut fb = Framebuffer::new();
    fb.pixels[1] = 0x00AB_CDEF;
    let bytes = fb.rgb_bytes();
    assert_eq!(bytes.len(), SCREEN_W * SCREEN_H * 3);
    assert_eq!(&bytes[3..6], &[0xAB, 0xCD, 0xEF]);
    assert_eq!(&bytes[0..3], &[0, 0, 0]);
}
