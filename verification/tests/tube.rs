use bbc_micro_emu::tube::{Parasite, Tube};

#[test]
fn empty_tube_status_reports_no_data_and_space_available() {
    let mut t = Tube::new();
    // R1 status: DAV (bit 7) clear, NFL (bit 6) set.
    assert_eq!(t.host_read(0) & 0xC0, 0x40);
    assert_eq!(t.parasite_read(0) & 0xC0, 0x40);
}

#[test]
fn host_to_parasite_round_trip_on_r1() {
    let mut t = Tube::new();
    t.host_write(1, 0x42);
    // Parasite sees DAV on R1.
    assert_eq!(t.parasite_read(0) & 0x80, 0x80);
    // Parasite reads the byte.
    assert_eq!(t.parasite_read(1), 0x42);
    // FIFO empty again.
    assert_eq!(t.parasite_read(0) & 0x80, 0x00);
}

#[test]
fn parasite_to_host_round_trip_on_r3() {
    let mut t = Tube::new();
    for b in [0xAA, 0xBB, 0xCC] {
        t.parasite_write(5, b);
    }
    assert_eq!(t.host_read(4) & 0x80, 0x80, "DAV set after writes");
    let mut got = Vec::new();
    for _ in 0..3 {
        got.push(t.host_read(5));
    }
    assert_eq!(got, vec![0xAA, 0xBB, 0xCC]);
    assert_eq!(t.host_read(4) & 0x80, 0x00, "DAV clear after drain");
}

#[test]
fn control_reset_clears_all_fifos() {
    let mut t = Tube::new();
    t.host_write(1, 0x11);
    t.parasite_write(1, 0x22);
    t.host_write(0, 0x80); // soft reset bit
    assert_eq!(t.host_read(0) & 0x80, 0); // no DAV
    assert_eq!(t.parasite_read(0) & 0x80, 0);
}

#[test]
fn host_irq_fires_when_r1_p2h_written_with_enable_set() {
    let mut t = Tube::new();
    t.host_write(0, 0x20); // enable host IRQ from R1
    t.parasite_write(1, 0x99);
    assert!(t.poll_host_irq());
    assert!(!t.poll_host_irq(), "edge consumed once");
}

#[test]
fn parasite_64k_ram_round_trip() {
    let mut p = Parasite::new();
    p.write(0x4242, 0xA5);
    assert_eq!(p.read(0x4242), 0xA5);
    p.write(0x0000, 0x11);
    p.write(0xFFFF, 0x22);
    assert_eq!(p.read(0x0000), 0x11);
    assert_eq!(p.read(0xFFFF), 0x22);
}
