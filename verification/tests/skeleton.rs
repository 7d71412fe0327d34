//! Address-space dispatch and paged ROM reads.

use bbc_micro_emu::{Memory, MemoryConfig, RomBank, SheilaDevice};

fn build_marker_rom(marker: u8) -> Vec<u8> {
    let mut rom = vec![0u8; 0x4000];
    rom[0] = marker;
    rom
}

#[test]
fn sheila_dispatch_routes_to_correct_device() {
    assert_eq!(SheilaDevice::from_addr(0xFE00), SheilaDevice::Crtc);
    assert_eq!(SheilaDevice::from_addr(0xFE07), SheilaDevice::Crtc);
    assert_eq!(SheilaDevice::from_addr(0xFE08), SheilaDevice::Acia);
    assert_eq!(SheilaDevice::from_addr(0xFE20), SheilaDevice::VideoUla);
    assert_eq!(SheilaDevice::from_addr(0xFE30), SheilaDevice::RomSelect);
    assert_eq!(SheilaDevice::from_addr(0xFE40), SheilaDevice::SystemVia);
    assert_eq!(SheilaDevice::from_addr(0xFE5F), SheilaDevice::SystemVia);
    assert_eq!(SheilaDevice::from_addr(0xFE60), SheilaDevice::UserVia);
    assert_eq!(SheilaDevice::from_addr(0xFE80), SheilaDevice::Fdc);
    assert_eq!(SheilaDevice::from_addr(0xFEC0), SheilaDevice::Adc);
    assert_eq!(SheilaDevice::from_addr(0xFEE0), SheilaDevice::Tube);
}

#[test]
fn memory_read_paths_cover_all_regions() {
    let mem_cfg = MemoryConfig {
        mos_rom_bytes: Some({
            let mut r = vec![0u8; 0x4000];
            r[0] = 0xC0; // first byte of MOS
            r[0x3FFF] = 0xFF; // last byte of MOS at $FFFF
            r
        }),
        ..MemoryConfig::default()
    };
    let mut memory = Memory::new(mem_cfg).unwrap();
    memory
        .install_bank(0, RomBank::from_bytes(&build_marker_rom(0x80)).unwrap())
        .unwrap();
    memory.ram_mut()[0x100] = 0x42;

    assert_eq!(memory.read(0x0100), 0x42);
    assert_eq!(memory.read(0x8000), 0x80);
    assert_eq!(memory.read(0xC000), 0xC0);
    assert_eq!(memory.read(0xFFFF), 0xFF);
}
