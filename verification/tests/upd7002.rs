use bbc_micro_emu::upd7002::UpD7002;

#[test]
fn starting_conversion_sets_busy() {
    let mut adc = UpD7002::new();
    adc.write(0, 0x00); // channel 0, 10-bit
    assert!(adc.busy);
}

#[test]
fn conversion_completes_after_cycle_budget() {
    let mut adc = UpD7002::new();
    adc.set_input(0, 12345);
    adc.write(0, 0x00);
    adc.tick(7_999);
    assert!(adc.busy);
    adc.tick(2);
    assert!(!adc.busy);
    // Result reflects the unsigned conversion of 12345.
    let expected = (12345i32 + 32768) as u32;
    let hi = (expected >> 8) as u8;
    let lo = (expected & 0xFF) as u8;
    assert_eq!(adc.read(1), hi);
    assert_eq!(adc.read(2), lo);
}

#[test]
fn eoc_edge_fires_once_per_conversion() {
    let mut adc = UpD7002::new();
    adc.write(0, 0x00);
    adc.tick(10_000);
    assert!(adc.poll_eoc_edge());
    assert!(!adc.poll_eoc_edge());
}
