//! Host input path of the machine: typing, the MOS keyboard buffer, and
//! the OSRDCH / OSBYTE interception.

use bbc_micro_emu::machine::{frames_due, StepStart, FRAME_CYCLES};
use bbc_micro_emu::{Machine, MachineConfig};

fn fresh() -> Machine {
    Machine::new(MachineConfig::default()).unwrap()
}

#[test]
fn type_string_turns_newline_into_return() {
    let mut m = fresh();
    assert!(!m.has_typed_chars());
    m.type_string("P.\n");
    assert_eq!(m.typed_chars_len(), 3);
    assert_eq!(m.typed_chars.iter().copied().collect::<Vec<u8>>(), vec![b'P', b'.', 0x0D]);
    m.type_byte(0x0A);
    assert_eq!(m.typed_chars_len(), 4);
    assert_eq!(m.typed_chars[3], 0x0A);
}

#[test]
fn flush_fills_keyboard_buffer_and_pointer() {
    let mut m = fresh();
    m.cpu.registers.pc = 0x1234;
    {
        let ram = m.bus.memory.ram_mut();
        ram[0x02E1] = 0xFE; // insert pointer
        ram[0x02D8] = 0x10; // remove pointer
        ram[0x0256] = 0xFF;
    }
    m.type_string("HI!");
    let start: StepStart = m.begin_step();
    assert!(!start.intercepted);
    let ram = m.bus.memory.ram();
    assert_eq!(ram[0x03FE], b'H');
    assert_eq!(ram[0x03FF], b'I');
    assert_eq!(ram[0x0300], b'!');
    assert_eq!(ram[0x02E1], 0x01);
    assert_eq!(ram[0x0256], 0);
    assert!(!m.has_typed_chars());
}

#[test]
fn full_keyboard_buffer_keeps_the_queue() {
    let mut m = fresh();
    m.cpu.registers.pc = 0x1234;
    {
        let ram = m.bus.memory.ram_mut();
        ram[0x02E1] = 0x20;
        ram[0x02D8] = 0x21;
    }
    m.type_string("AB");
    m.begin_step();
    assert_eq!(m.typed_chars_len(), 2);
    assert_eq!(m.bus.memory.ram()[0x02E1], 0x20);
}

#[test]
fn buffer_room_limits_the_flush() {
    let mut m = fresh();
    m.cpu.registers.pc = 0x1234;
    {
        let ram = m.bus.memory.ram_mut();
        ram[0x02E1] = 0x10;
        ram[0x02D8] = 0x13; // two free slots
    }
    m.type_string("WXYZ");
    m.begin_step();
    assert_eq!(m.typed_chars_len(), 2);
    let ram = m.bus.memory.ram();
    assert_eq!(ram[0x0310], b'W');
    assert_eq!(ram[0x0311], b'X');
    assert_eq!(ram[0x02E1], 0x12);
}

#[test]
fn osrdch_is_answered_from_the_queue() {
    let mut m = fresh();
    {
        let ram = m.bus.memory.ram_mut();
        // Keyboard buffer full so the queue stays for OSRDCH.
        ram[0x02E1] = 0x00;
        ram[0x02D8] = 0x01;
        // Return address $2344 pushed by JSR (stack at $01FE/$01FF).
        ram[0x01FE] = 0x44;
        ram[0x01FF] = 0x23;
    }
    m.cpu.registers.sp = 0xFD;
    m.cpu.registers.pc = 0xFFE0;
    m.cpu.registers.status = 0x01;
    m.cpu.cycles = 100;
    m.type_string("Q");
    let start = m.begin_step();
    assert!(start.intercepted);
    assert_eq!(m.cpu.registers.a, b'Q');
    assert_eq!(m.cpu.registers.pc, 0x2345);
    assert_eq!(m.cpu.registers.sp, 0xFF);
    assert_eq!(m.cpu.registers.status, 0x20);
    assert_eq!(m.cpu.cycles, 105);
    assert!(!m.has_typed_chars());
}

#[test]
fn osrdch_with_empty_queue_runs_the_mos() {
    let mut m = fresh();
    m.cpu.registers.pc = 0xFFE0;
    let start = m.begin_step();
    assert!(!start.intercepted);
    assert_eq!(m.cpu.registers.pc, 0xFFE0);
}

#[test]
fn negative_inkey_reports_queued_key_and_no_key() {
    let mut m = fresh();
    {
        let ram = m.bus.memory.ram_mut();
        ram[0x02E1] = 0x00;
        ram[0x02D8] = 0x01;
        ram[0x01FE] = 0x00;
        ram[0x01FF] = 0x30;
    }
    m.cpu.registers.sp = 0xFD;
    m.cpu.registers.pc = 0xFFF4;
    m.cpu.registers.a = 0x81;
    m.cpu.registers.y = 0xFF;
    m.type_byte(b'K');
    let start = m.begin_step();
    assert!(start.intercepted);
    assert_eq!(m.cpu.registers.x, b'K');
    assert_eq!(m.cpu.registers.y, 0);
    assert_eq!(m.cpu.registers.pc, 0x3001);
    assert_eq!(m.cpu.cycles, 8);
    // The key stays queued.
    assert_eq!(m.typed_chars_len(), 1);

    let mut n = fresh();
    {
        let ram = n.bus.memory.ram_mut();
        ram[0x01FE] = 0x00;
        ram[0x01FF] = 0x30;
    }
    n.cpu.registers.sp = 0xFD;
    n.cpu.registers.pc = 0xFFF4;
    n.cpu.registers.a = 0x81;
    n.cpu.registers.y = 0xFF;
    let start = n.begin_step();
    assert!(start.intercepted);
    assert_eq!(n.cpu.registers.y, 0xFF);
    assert_eq!(n.cpu.registers.status & 0x01, 0x01);
}

#[test]
fn other_osbyte_calls_are_left_alone() {
    let mut m = fresh();
    m.cpu.registers.pc = 0xFFF4;
    m.cpu.registers.a = 0x80;
    m.cpu.registers.y = 0xFF;
    assert!(!m.begin_step().intercepted);
}

#[test]
fn passthrough_off_intercepts_nothing() {
    let mut m = fresh();
    m.host_input_passthrough = false;
    m.cpu.registers.pc = 0xFFE0;
    m.type_string("Z");
    let start = m.begin_step();
    assert!(!start.intercepted);
    assert_eq!(m.typed_chars_len(), 1);
}

#[test]
fn finish_step_batches_device_ticks() {
    let mut m = fresh();
    m.cpu.cycles = 10;
    assert_eq!(m.finish_step(0), 10);
    assert_eq!(m.cycles_since_crtc_tick, 10);
    m.cpu.cycles = 16;
    assert_eq!(m.finish_step(10), 6);
    assert_eq!(m.cycles_since_crtc_tick, 0);
}

#[test]
fn finish_step_pulses_cb1_on_adc_completion() {
    let mut m = fresh();
    m.bus.hardware.system_via.via.write(0xE, 0x80 | 0x10); // enable CB1 IRQ
    m.bus.hardware.system_via.via.pcr = 0x00; // CB1 falling edge
    m.bus.hardware.adc.write(0, 0x00);
    m.cpu.cycles = 9_000;
    m.finish_step(0);
    assert!(!m.bus.hardware.adc.busy);
    assert!(m.bus.hardware.system_via.via.ifr & 0x10 != 0);
}

#[test]
fn frames_due_is_clamped() {
    assert_eq!(frames_due(0), 1);
    assert_eq!(frames_due(19_999), 1);
    assert_eq!(frames_due(40_000), 2);
    assert_eq!(frames_due(80_000), 4);
    assert_eq!(frames_due(1_000_000), 4);
    assert_eq!(FRAME_CYCLES, 40_000);
}

#[test]
fn run_decisions_and_report() {
    let mut m = fresh();
    m.cpu.cycles = 500;
    assert!(m.run_continues(100, 401, 0, 10));
    assert!(!m.run_continues(100, 400, 0, 10));
    assert!(!m.run_continues(100, 401, 10, 10));
    let r = m.run_report(100, 7);
    assert_eq!(r.cycles_spent, 400);
    assert_eq!(r.instructions, 7);
}

#[test]
fn machine_loads_font_from_mos() {
    let mut mos = vec![0u8; 0x4000];
    mos[0] = 0x11;
    mos[767] = 0x22;
    let cfg = MachineConfig {
        memory: bbc_micro_emu::MemoryConfig { mos_rom_bytes: Some(mos), ..Default::default() },
    };
    let m = Machine::new(cfg).unwrap();
    assert_eq!(m.renderer.font[0], 0x11);
    assert_eq!(m.renderer.font[767], 0x22);
    assert_eq!(m.bus.memory.ram()[0x1234], 0xFF);
}

#[test]
fn machine_refuses_a_short_mos() {
    let cfg = MachineConfig {
        memory: bbc_micro_emu::MemoryConfig { mos_rom_bytes: Some(vec![0u8; 100]), ..Default::default() },
    };
    let err = match Machine::new(cfg) {
        Ok(_) => panic!("short MOS accepted"),
        Err(e) => e,
    };
    assert_eq!(
        err.message(),
        "ROM load error: ROM `<mos:inline>` has unexpected size: expected 16384 bytes, got 100"
    );
}
