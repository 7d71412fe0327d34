use bbc_micro_emu::fdc8271::{
    status, Fdc8271, DSD_SIZE, SECTORS_PER_TRACK, SECTOR_SIZE, SSD_SIZE, TRACKS_PER_DISK,
};

fn dummy_ssd() -> Vec<u8> {
    let mut img = vec![0u8; SSD_SIZE];
    for t in 0..TRACKS_PER_DISK {
        for s in 0..SECTORS_PER_TRACK {
            let off = (t * SECTORS_PER_TRACK + s) * SECTOR_SIZE;
            img[off] = t as u8;
            img[off + 1] = s as u8;
        }
    }
    img
}

#[test]
fn fdc_loads_ssd_and_reports_correct_size() {
    let mut fdc = Fdc8271::new();
    fdc.load_image(0, dummy_ssd()).unwrap();
    assert!(fdc.has_disk());
    assert_eq!(fdc.drive_count(), 1);
}

#[test]
fn read_drive_status_reflects_loaded_image_on_drive_0() {
    let mut fdc = Fdc8271::new();
    fdc.load_image(0, dummy_ssd()).unwrap();
    // Spin drive 0 up by writing the drive-output special register.
    fdc.write(0, 0x3A);
    fdc.write(1, 0x23);
    fdc.write(1, 0x48);
    // Wait past the spin-up window so RDY/TRK0/INDEX become observable.
    fdc.tick(2_000);
    fdc.write(0, 0x2C);
    assert_eq!(fdc.status_byte() & status::RESULT_FULL, status::RESULT_FULL);
    let r = fdc.read(1);
    assert!(r & 0x80 != 0, "bit 7 sentinel should be set");
    assert!(r & 0x04 != 0, "RDY0 should be set once drive selected");
    assert!(r & 0x02 != 0, "TRK0 should be set at track 0");
    assert!(r & 0x01 != 0, "bit 0 sentinel should be set");
}

#[test]
fn seek_updates_current_track() {
    let mut fdc = Fdc8271::new();
    fdc.load_image(0, dummy_ssd()).unwrap();
    fdc.write(0, 0x29); // Seek
    fdc.write(1, 17); // track 17
    assert_eq!(fdc.current_track(), 17);
}

#[test]
fn read_data_streams_bytes_via_nmi() {
    let mut fdc = Fdc8271::new();
    fdc.load_image(0, dummy_ssd()).unwrap();
    fdc.write(0, 0x13); // Read Data, multi-sector
    fdc.write(1, 5); // track
    fdc.write(1, 3); // sector
    fdc.write(1, 1); // 1 sector
    fdc.tick(8500);
    assert!(fdc.poll_nmi_edge());
    assert_eq!(fdc.read(4), 5);
    fdc.tick(150);
    assert!(fdc.poll_nmi_edge());
    assert_eq!(fdc.read(4), 3);
}

#[test]
fn oversized_image_is_rejected() {
    let mut fdc = Fdc8271::new();
    // Anything larger than SSD but not exactly DSD must be refused.
    let err = fdc.load_image(0, vec![0u8; SSD_SIZE + 1]).unwrap_err();
    let msg = err.message();
    assert!(msg.contains(&format!("{}", SSD_SIZE + 1)));
}

#[test]
fn undersized_image_is_padded_and_loads_single_sided() {
    let mut fdc = Fdc8271::new();
    fdc.load_image(0, vec![0xAAu8; 12345]).unwrap();
    assert!(fdc.has_disk());
    // First few bytes are still 0xAA, the tail is the 0-padding.
    let head = fdc.drives[0].read_sector(0, 0, 0).unwrap();
    assert_eq!(head[0], 0xAA);
}

#[test]
fn dsd_image_loads_as_double_sided() {
    let mut fdc = Fdc8271::new();
    fdc.load_image(0, vec![0u8; DSD_SIZE]).unwrap();
    assert!(fdc.has_disk());
}
