//! Snapshot fields beyond the CPU and RAM, and the refusals.

use bbc_micro_emu::snapshot::{decode, encode, SnapshotError, SNAPSHOT_LEN};
use bbc_micro_emu::{Machine, MachineConfig};

fn fresh() -> Machine {
    Machine::new(MachineConfig::default()).unwrap()
}

#[test]
fn snapshot_round_trip_of_devices() {
    let mut a = fresh();
    a.cpu.registers.status = 0xA5;
    a.cpu.registers.sp = 0x7E;
    a.cpu.cycles = 0x0102_0304_0506_0708;
    a.bus.memory.select_bank(9);
    a.bus.hardware.crtc.scanline_in_frame = 300;
    a.bus.hardware.crtc.cycle_in_scanline = 45;
    a.bus.hardware.video_ula.screen_size_code = 2;
    a.bus.hardware.system_via.keys[3] = 0x81;
    a.bus.hardware.sound.set_channel_period(2, 0x3FF);
    a.bus.hardware.sound.set_channel_attenuation(1, 7);
    a.bus.hardware.sound.set_noise_ctrl_byte(5);
    a.bus.hardware.fdc.set_drive_track(1, 33);
    a.bus.hardware.fdc.set_cur_drive(1);
    a.bus.hardware.fdc.set_side(1);

    let snap = encode(&a);
    assert_eq!(snap.len(), SNAPSHOT_LEN);
    assert_eq!(&snap[8..16], &[0x08, 0x07, 0x06, 0x05, 0x04, 0x03, 0x02, 0x01]);
    let mut b = fresh();
    decode(&mut b, &snap).unwrap();
    assert_eq!(b.cpu.registers.status, 0xA5);
    assert_eq!(b.cpu.registers.sp, 0x7E);
    assert_eq!(b.cpu.cycles, 0x0102_0304_0506_0708);
    assert_eq!(b.bus.memory.selected_bank(), 9);
    assert_eq!(b.bus.hardware.crtc.scanline_in_frame, 300);
    assert_eq!(b.bus.hardware.crtc.cycle_in_scanline, 45);
    assert_eq!(b.bus.hardware.video_ula.screen_size_code, 2);
    assert_eq!(b.bus.hardware.system_via.keys[3], 0x81);
    assert_eq!(b.bus.hardware.sound.channel_period(2), 0x3FF);
    assert_eq!(b.bus.hardware.sound.channel_attenuation(1), 7);
    assert_eq!(b.bus.hardware.sound.noise_ctrl_byte(), 5);
    assert_eq!(b.bus.hardware.fdc.drive_track(1), 33);
    assert_eq!(b.bus.hardware.fdc.cur_drive_index(), 1);
    assert_eq!(b.bus.hardware.fdc.side_index(), 1);
    assert_eq!(encode(&b), snap);
}

#[test]
fn snapshot_refusals_leave_the_machine_alone() {
    let mut m = fresh();
    m.cpu.registers.a = 0x12;
    let mut snap = encode(&fresh());
    snap[4] = 2;
    match decode(&mut m, &snap) {
        Err(SnapshotError::BadVersion(v)) => assert_eq!(v, 2),
        _ => panic!("version 2 accepted"),
    }
    match decode(&mut m, &snap[..100]) {
        Err(SnapshotError::WrongSize { expected, actual }) => {
            assert_eq!(expected, SNAPSHOT_LEN);
            assert_eq!(actual, 100);
        }
        _ => panic!("short snapshot accepted"),
    }
    snap[4] = 1;
    snap[2] = b'X';
    assert!(matches!(decode(&mut m, &snap), Err(SnapshotError::BadMagic)));
    assert_eq!(m.cpu.registers.a, 0x12);
}

#[test]
fn snapshot_masks_out_of_range_fields() {
    let mut snap = encode(&fresh());
    snap[5] = 0x17; // bank
    snap[88] = 0xF3; // attenuation
    snap[114] = 3; // drive
    snap[115] = 2; // side
    let mut m = fresh();
    decode(&mut m, &snap).unwrap();
    assert_eq!(m.bus.memory.selected_bank(), 7);
    assert_eq!(m.bus.hardware.sound.channel_attenuation(0), 3);
    assert_eq!(m.bus.hardware.fdc.cur_drive_index(), 0); // out of range: kept
    assert_eq!(m.bus.hardware.fdc.side_index(), 0);
    m.bus.hardware.fdc.set_cur_drive(1);
    decode(&mut m, &snap).unwrap();
    assert_eq!(m.bus.hardware.fdc.cur_drive_index(), 1);
    snap[114] = 0;
    decode(&mut m, &snap).unwrap();
    assert_eq!(m.bus.hardware.fdc.cur_drive_index(), 0);
}
