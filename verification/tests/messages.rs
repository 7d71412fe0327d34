//! Error texts.

use bbc_micro_emu::fdc8271::Fdc8271;
use bbc_micro_emu::snapshot::SnapshotError;
use bbc_micro_emu::{MachineError, Memory, MemoryConfig, RomBank, RomLoadError};

#[test]
fn fdc_error_texts() {
    let mut fdc = Fdc8271::new();
    let err = fdc.load_image(0, vec![0u8; 300_000]).unwrap_err();
    assert_eq!(
        err.message(),
        "disk image must be <= 204800 (SSD) or exactly 409600 (DSD) bytes; got 300000"
    );
    let err = fdc.load_image(2, vec![0u8; 10]).unwrap_err();
    assert_eq!(err.message(), "seek to invalid track 2");
}

#[test]
fn rom_bank_size_error_names_the_image() {
    let err = match RomBank::from_bytes_at(&[0u8; 100], "lang.rom".to_string()) {
        Ok(_) => panic!("odd size accepted"),
        Err(e) => e,
    };
    assert_eq!(
        err.message(),
        "ROM `lang.rom` has unexpected size: expected 16384 bytes, got 100"
    );
    let err = match RomBank::from_bytes(&[0u8; 3]) {
        Ok(_) => panic!("odd size accepted"),
        Err(e) => e,
    };
    assert_eq!(err.message(), "ROM `<inline>` has unexpected size: expected 16384 bytes, got 3");
}

#[test]
fn rom_load_error_texts() {
    let io = RomLoadError::Io { path: "os.rom".to_string(), message: "no such file".to_string() };
    assert_eq!(io.message(), "cannot read ROM `os.rom`: no such file");
    let range = RomLoadError::BankOutOfRange { bank: 20 };
    assert_eq!(range.message(), "sideways ROM bank 20 is out of range (max 15)");
    assert_eq!(MachineError::Rom(range).message(), "ROM load error: sideways ROM bank 20 is out of range (max 15)");
    assert_eq!(MachineError::Cpu("halted".to_string()).message(), "CPU error: halted");
}

#[test]
fn install_bank_out_of_range_is_refused() {
    let mut memory = Memory::new(MemoryConfig::default()).unwrap();
    let rom = RomBank::from_bytes(&vec![0u8; 0x4000]).unwrap();
    match memory.install_bank(16, rom) {
        Err(RomLoadError::BankOutOfRange { bank }) => assert_eq!(bank, 16),
        _ => panic!("bank 16 accepted"),
    }
}

#[test]
fn small_roms_are_mirrored() {
    let mut image = vec![0u8; 0x1000];
    image[0] = 0x5A;
    let mut memory = Memory::new(MemoryConfig::default()).unwrap();
    memory.install_bank(3, RomBank::from_bytes(&image).unwrap()).unwrap();
    memory.select_bank(3);
    assert_eq!(memory.read(0x8000), 0x5A);
    assert_eq!(memory.read(0x9000), 0x5A);
    assert_eq!(memory.read(0xB000), 0x5A);
    assert_eq!(memory.read(0xB001), 0x00);
}

#[test]
fn snapshot_error_texts() {
    assert_eq!(SnapshotError::BadMagic.message(), "not a BBC Micro snapshot (bad magic)");
    assert_eq!(SnapshotError::BadVersion(7).message(), "unsupported snapshot version 7");
    assert_eq!(
        SnapshotError::WrongSize { expected: 32884, actual: 12 }.message(),
        "snapshot wrong size: expected 32884 bytes, got 12"
    );
    assert_eq!(SnapshotError::Io("disk full".to_string()).message(), "disk full");
}
