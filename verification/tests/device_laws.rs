//! Tick granularity, sector storage and the keyboard matrix.

use bbc_micro_emu::crtc::Crtc6845;
use bbc_micro_emu::fdc8271::{Fdc8271, DSD_SIZE, SSD_SIZE};
use bbc_micro_emu::system_via::BbcKey;
use bbc_micro_emu::via6522::Via6522;
use bbc_micro_emu::upd7002::UpD7002;
use bbc_micro_emu::VideoUla;

fn via_timers(v: &Via6522) -> (u16, u16, u8, bool, bool, u8) {
    (v.t1_counter, v.t2_counter, v.ifr, v.t1_running, v.t2_running, v.pending_half)
}

fn programmed_via() -> Via6522 {
    let mut via = Via6522::new();
    via.write(6, 37);
    via.write(7, 0);
    via.write(0xB, 0x40); // T1 free-running
    via.write(5, 0);
    via.write(8, 90);
    via.write(9, 0);
    via
}

#[test]
fn via_ticks_in_pieces_equal_one_tick() {
    let mut a = programmed_via();
    let mut b = programmed_via();
    a.tick(3);
    a.tick(250);
    a.tick(1);
    b.tick(254);
    assert_eq!(via_timers(&a), via_timers(&b));
}

fn crtc_state(c: &Crtc6845) -> (u16, u16, bool, u8) {
    (c.scanline_in_frame, c.cycle_in_scanline, c.vsync_active, c.pending_half)
}

fn programmed_crtc() -> Crtc6845 {
    let mut crtc = Crtc6845::new();
    for (r, v) in [(0u8, 63u8), (4, 38), (6, 32), (7, 34), (9, 7)] {
        crtc.write(0, r);
        crtc.write(1, v);
    }
    crtc
}

#[test]
fn crtc_ticks_in_pieces_equal_one_tick() {
    let mut a = programmed_crtc();
    let mut b = programmed_crtc();
    let e1 = a.tick(1_001);
    let e2 = a.tick(39_000);
    let e = b.tick(40_001);
    assert_eq!(crtc_state(&a), crtc_state(&b));
    assert_eq!(e.vsync_edge, e1.vsync_edge || e2.vsync_edge);
    assert_eq!(e.frame_done, e1.frame_done || e2.frame_done);
}

#[test]
fn sector_write_reads_back_and_leaves_neighbours() {
    let mut fdc = Fdc8271::new();
    fdc.load_image(0, vec![0x11u8; SSD_SIZE]).unwrap();
    let data: Vec<u8> = (0..256).map(|i| i as u8).collect();
    assert!(fdc.drives[0].write_sector(0, 9, 4, &data));
    assert_eq!(fdc.drives[0].read_sector(0, 9, 4).unwrap(), &data[..]);
    assert!(fdc.drives[0].read_sector(0, 9, 5).unwrap().iter().all(|b| *b == 0x11));
    assert!(fdc.drives[0].read_sector(0, 9, 3).unwrap().iter().all(|b| *b == 0x11));
    // Sectors beyond the disc do not exist.
    assert!(fdc.drives[0].read_sector(0, 80, 0).is_none());
    assert!(!fdc.drives[0].write_sector(0, 0, 10, &data));
}

#[test]
fn write_protected_drive_refuses_writes() {
    let mut fdc = Fdc8271::new();
    fdc.load_image(0, vec![0u8; SSD_SIZE]).unwrap();
    fdc.drives[0].write_protect = true;
    assert!(!fdc.drives[0].write_sector(0, 1, 1, &[1, 2, 3]));
    assert_eq!(fdc.drives[0].read_sector(0, 1, 1).unwrap()[0], 0);
}

#[test]
fn dsd_sides_are_interleaved_by_track() {
    let mut fdc = Fdc8271::new();
    let mut img = vec![0u8; DSD_SIZE];
    img[(3 * 2 + 1) * 2560 + 2 * 256] = 0xEE; // track 3, side 1, sector 2
    fdc.load_image(0, img).unwrap();
    assert_eq!(fdc.drives[0].read_sector(1, 3, 2).unwrap()[0], 0xEE);
    assert_eq!(fdc.drives[0].read_sector(0, 3, 2).unwrap()[0], 0x00);
    assert_eq!(fdc.drives[0].sector_offset(1, 3, 2), Some((3 * 2 + 1) * 2560 + 512));
}

#[test]
fn every_key_has_its_own_matrix_cell() {
    let keys = [
        BbcKey::Shift, BbcKey::Ctrl, BbcKey::KeyA, BbcKey::KeyZ, BbcKey::K0, BbcKey::K9,
        BbcKey::Space, BbcKey::Return, BbcKey::Escape, BbcKey::Tab, BbcKey::Up, BbcKey::Down,
    ];
    for (i, a) in keys.iter().enumerate() {
        let (ca, ra) = a.matrix_pos();
        assert!(ca < 10 && ra < 8);
        for b in keys.iter().skip(i + 1) {
            assert_ne!(a.matrix_pos(), b.matrix_pos());
        }
    }
}

#[test]
fn palette_write_reads_back_through_resolve_color() {
    let mut ula = VideoUla::new();
    ula.write(0xFE21, 0x52); // logical 5 -> stored 2 (physical 5: red + blue)
    assert_eq!(ula.resolve_color(5), [255, 0, 255]);
    // Logical 6 keeps the power-on entry 0 (physical 7: white).
    assert_eq!(ula.resolve_color(6), [255, 255, 255]);
}

#[test]
fn cursor_registers_read_back() {
    let mut crtc = Crtc6845::new();
    crtc.write(0, 15);
    crtc.write(1, 0x9C);
    assert_eq!(crtc.read(1), 0x9C);
    assert_eq!(crtc.read(0), 0xFF);
    crtc.write(0, 1);
    crtc.write(1, 40);
    assert_eq!(crtc.read(1), 0);
}

#[test]
fn adc_ticks_in_pieces_equal_one_tick() {
    let mut a = UpD7002::new();
    let mut b = UpD7002::new();
    a.set_input(2, -100);
    b.set_input(2, -100);
    a.write(0, 0x12); // channel 2, 12-bit
    b.write(0, 0x12);
    a.tick(12_000);
    a.tick(8_000);
    b.tick(20_000);
    assert_eq!((a.busy, a.result_hi, a.result_lo), (b.busy, b.result_hi, b.result_lo));
    assert!(!a.busy);
    assert_eq!(((a.result_hi as u32) << 8) | a.result_lo as u32, 32_668);
}
