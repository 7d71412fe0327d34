//! Register fields decoded by the devices, one conversion ticked through to
//! its end, and the edges of the sound and ROM inputs.

use bbc_micro_emu::acia6850::SerialUla;
use bbc_micro_emu::crtc::Crtc6845;
use bbc_micro_emu::memory::RomBank;
use bbc_micro_emu::sn76489::Sn76489;
use bbc_micro_emu::system_via::SystemVia;
use bbc_micro_emu::upd7002::UpD7002;
use bbc_micro_emu::VideoUla;

#[test]
fn adc_conversion_raises_end_of_conversion_once() {
    let mut adc = UpD7002::new();
    adc.set_input(1, 0x1234);
    adc.write(0, 0x11); // channel 1, 12-bit: 20000 cycles
    let mut polls = Vec::new();
    let mut busy = Vec::new();
    for _ in 0..6 {
        adc.tick(5_000);
        polls.push(adc.poll_eoc_edge());
        busy.push(adc.busy);
    }
    assert_eq!(polls, vec![false, false, false, true, false, false]);
    assert_eq!(busy, vec![true, true, true, false, false, false]);
    let v = 0x1234u32 + 32_768;
    assert_eq!(adc.result_hi as u32, v / 256);
    assert_eq!(adc.result_lo as u32, v % 256);
}

#[test]
fn adc_ten_bit_conversion_ends_when_the_total_reaches_its_time() {
    let mut adc = UpD7002::new();
    adc.write(3, 0x00); // channel 0, 10-bit: 8000 cycles
    adc.tick(7_999);
    assert!(adc.busy);
    assert_eq!(adc.cycles_remaining, 1);
    assert!(!adc.poll_eoc_edge());
    adc.tick(1);
    assert!(!adc.busy);
    assert!(adc.poll_eoc_edge());
    assert!(!adc.poll_eoc_edge());
}

#[test]
fn adc_idle_ticks_change_nothing() {
    let mut adc = UpD7002::new();
    adc.set_input(3, -5);
    let before = (adc.control, adc.result_hi, adc.result_lo, adc.busy, adc.cycles_remaining);
    for c in [1u32, 10_000, u32::MAX] {
        adc.tick(c);
        assert!(!adc.poll_eoc_edge());
    }
    let after = (adc.control, adc.result_hi, adc.result_lo, adc.busy, adc.cycles_remaining);
    assert_eq!(before, after);
}

#[test]
fn cursor_blink_modes_follow_r10_bits_6_5() {
    let mut c = Crtc6845::new();
    c.regs[10] = 0x00; // steady
    assert!(c.cursor_visible(0) && c.cursor_visible(13));
    c.regs[10] = 0x20; // off
    assert!(!c.cursor_visible(0) && !c.cursor_visible(16));
    c.regs[10] = 0x40; // slow blink
    assert!(c.cursor_visible(15));
    assert!(!c.cursor_visible(16));
    assert!(c.cursor_visible(32));
    c.regs[10] = 0x60; // fast blink
    assert!(c.cursor_visible(7));
    assert!(!c.cursor_visible(8));
    assert!(c.cursor_visible(16));
}

#[test]
fn screen_address_keeps_the_raster_row_in_its_low_bits() {
    assert_eq!(Crtc6845::bbc_screen_addr(0x0B00, 0, 0x2800), 0x5800);
    assert_eq!(Crtc6845::bbc_screen_addr(0x0B00, 5, 0x2800), 0x5805);
    assert_eq!(Crtc6845::bbc_screen_addr(0x0FFF, 7, 0x5000), 0x7FFF);
    for ra in 0u16..16 {
        let a = Crtc6845::bbc_screen_addr(0x2300, ra, 0x5000);
        assert!(a < 0x8000);
        assert_eq!(a & 7, ra & 7);
    }
}

#[test]
fn screen_size_offset_by_code() {
    let mut u = VideoUla::new();
    let expected = [0x5000u16, 0x4000, 0x2800, 0x2000];
    for code in 0u8..8 {
        u.screen_size_code = code;
        assert_eq!(u.screen_size_offset(), expected[(code & 3) as usize]);
    }
}

#[test]
fn bits_per_pixel_by_control_bits_3_2() {
    let mut u = VideoUla::new();
    u.write(0xFE20, 0x00);
    assert_eq!(u.bits_per_pixel(), 8);
    u.write(0xFE20, 0x04);
    assert_eq!(u.bits_per_pixel(), 4);
    u.write(0xFE20, 0x08);
    assert_eq!(u.bits_per_pixel(), 2);
    u.write(0xFE20, 0x0C);
    assert_eq!(u.bits_per_pixel(), 1);
    u.write(0xFE20, 0xF3);
    assert_eq!(u.bits_per_pixel(), 8);
}

#[test]
fn serial_rates_by_control_fields() {
    let rates = [19200u32, 1200, 4800, 150, 9600, 300, 2400, 75];
    let mut u = SerialUla::new();
    for code in 0u8..8 {
        u.write(code << 3 | (7 - code));
        assert_eq!(u.rx_baud(), rates[code as usize]);
        assert_eq!(u.tx_baud(), rates[(7 - code) as usize]);
    }
    u.write(0b0010_0101);
    assert_eq!(u.rx_baud(), 9600);
    assert_eq!(u.tx_baud(), 300);
}

#[test]
fn screen_size_code_from_ic32_bits_4_and_5() {
    let mut v = SystemVia::new();
    for (ic32, code) in [(0x00u8, 0u8), (0x10, 2), (0x20, 1), (0x30, 3), (0xCF, 0), (0xFF, 3)] {
        v.ic32 = ic32;
        assert_eq!(v.screen_size_code(), code);
    }
}

#[test]
fn empty_rom_bank_reads_ff_at_any_offset() {
    let b = RomBank::empty();
    assert_eq!(b.read(0), 0xFF);
    assert_eq!(b.read(0x4000), 0xFF);
    assert_eq!(b.read(0xFFFF), 0xFF);
}

#[test]
fn sample_rate_above_i32_range_holds_the_outputs() {
    let mut s = Sn76489::new();
    s.write(0x80 | 0x04);
    s.write(0x10);
    s.write(0x90);
    let samples = s.synthesize(0x8000_0000, 8);
    assert_eq!(samples.len(), 8);
    assert!(samples.windows(2).all(|w| w[0] == w[1]));
}
