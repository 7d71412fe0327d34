//! FIFO depth, ordering and reset behaviour of the Tube.

use bbc_micro_emu::tube::Tube;

#[test]
fn r1_holds_one_byte_and_drops_the_rest() {
    let mut t = Tube::new();
    t.host_write(1, 0x01);
    t.host_write(1, 0x02);
    // NFL clear on the host side while the parasite has not read.
    assert_eq!(t.host_read(0) & 0x40, 0);
    assert_eq!(t.parasite_read(1), 0x01);
    assert_eq!(t.parasite_read(1), 0x00);
    assert_eq!(t.host_read(0) & 0x40, 0x40);
}

#[test]
fn r3_keeps_order_up_to_its_depth() {
    let mut t = Tube::new();
    for b in 0..30u8 {
        t.host_write(5, b);
    }
    for b in 0..24u8 {
        assert_eq!(t.parasite_read(5), b);
    }
    assert_eq!(t.parasite_read(5), 0);
    assert_eq!(t.parasite_read(4) & 0x80, 0);
}

#[test]
fn r4_write_interrupts_parasite_when_enabled() {
    let mut t = Tube::new();
    t.host_write(0, 0x01);
    assert!(!t.poll_parasite_irq());
    t.host_write(7, 0x55);
    assert!(t.poll_parasite_irq());
    assert!(!t.poll_parasite_irq());
    assert_eq!(t.parasite_read(7), 0x55);
}

#[test]
fn host_status_r1_carries_control_bits() {
    let mut t = Tube::new();
    t.host_write(0, 0x15);
    assert_eq!(t.host_read(0), 0x40 | 0x15);
    // The parasite's R1 status has no control bits.
    assert_eq!(t.parasite_read(0), 0x40);
}

#[test]
fn reset_clears_pending_interrupts() {
    let mut t = Tube::new();
    t.host_write(0, 0x20);
    t.parasite_write(1, 0x99);
    t.host_write(0, 0x80);
    assert!(!t.poll_host_irq());
    assert!(!t.poll_parasite_irq());
}

#[test]
fn status_writes_are_ignored() {
    let mut t = Tube::new();
    t.host_write(2, 0xFF);
    t.parasite_write(0, 0xFF);
    assert_eq!(t.host_read(2), 0x40);
    assert_eq!(t.parasite_read(2), 0x40);
}
