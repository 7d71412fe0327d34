//! The machine around the 6502: bus, renderer, the register file the
//! processor core works on, and the host-input path that feeds typed
//! characters to the MOS.
//!
//! The processor core itself runs outside this crate. One instruction step
//! is `begin_step` (interrupt lines, MOS entry interception), the core's
//! own instruction when nothing was intercepted, then `finish_step` (the
//! cycles it took, fanned out to the CRTC, VIAs, FDC and ADC).
use vstd::prelude::*;
use vstd::string::StringSliceAdditionalSpecFns;
use std::collections::VecDeque;
use crate::bus::BbcBus;
use crate::crtc::Crtc6845;
use crate::fdc8271::FdcState;
use crate::hardware::Hardware;
use crate::memory::{Memory, MemoryConfig, MemoryState, RomLoadError};
use crate::renderer::{Framebuffer, Renderer, frame_pixel, SCREEN_PIXELS};
use crate::system_via::SystemVia;
use crate::upd7002::{AnalogValue, UpD7002};
use crate::via6522::Via6522;

verus! {

/// MOS OSRDCH entry: read a character.
pub const OSRDCH_VEC: u16 = 0xFFE0;

/// MOS OSBYTE entry.
pub const OSBYTE_VEC: u16 = 0xFFF4;

/// CPU cycles in one 20 ms PAL frame at 2 MHz.
pub const FRAME_CYCLES: u64 = 40_000;

/// Host microseconds in one frame.
pub const FRAME_MICROS: u128 = 20_000;

/// Frames of emulation due after `elapsed_micros` of host time: the whole
/// frames elapsed, at least one and at most four (so a stalled host does
/// not make the emulation spiral).
pub fn frames_due(elapsed_micros: u128) -> (n: u32)
    ensures
        n == if elapsed_micros / FRAME_MICROS < 1 {
            1
        } else if elapsed_micros / FRAME_MICROS > 4 {
            4
        } else {
            elapsed_micros / FRAME_MICROS
        },
{
    let frames = elapsed_micros / FRAME_MICROS;
    if frames < 1 {
        1
    } else if frames > 4 {
        4
    } else {
        frames as u32
    }
}

/// 6502 status bit 5, which always reads as set.
pub const STATUS_UNUSED: u8 = 0x20;

/// The 6502 register file.
#[derive(Clone, Copy, Debug)]
pub struct Registers {
    pub a: u8,
    pub x: u8,
    pub y: u8,
    pub sp: u8,
    pub status: u8,
    pub pc: u16,
}

/// Processor state the machine reads and updates: registers and the
/// running cycle count.
#[derive(Clone, Copy, Debug)]
pub struct CpuState {
    pub registers: Registers,
    pub cycles: u64,
}

impl CpuState {
    /// All registers and the cycle count zero, until the core's reset
    /// sequence fills them in.
    pub fn new() -> (c: Self)
        ensures
            c.cycles == 0,
            c.registers.a == 0 && c.registers.x == 0 && c.registers.y == 0,
            c.registers.sp == 0 && c.registers.status == 0 && c.registers.pc == 0,
    {
        CpuState { registers: Registers { a: 0, x: 0, y: 0, sp: 0, status: 0, pc: 0 }, cycles: 0 }
    }
}

pub struct MachineConfig {
    pub memory: MemoryConfig,
}

impl Default for MachineConfig {
    fn default() -> (c: Self)
        ensures
            c.memory.mos_rom_bytes is None,
            c.memory.initial_bank == 0,
            forall|i: int| 0 <= i < 16 ==> #[trigger] c.memory.rom_banks@[i] is None,
    {
        MachineConfig { memory: MemoryConfig::default() }
    }
}

#[derive(Debug)]
pub enum MachineError {
    Rom(RomLoadError),
    /// An error reported by the processor core, as text.
    Cpu(String),
}

/// Text of a machine error: the cause, after a prefix naming its source.
pub open spec fn machine_error_text(rom: bool, cause: Seq<char>) -> Seq<char> {
    if rom { "ROM load error: "@ + cause } else { "CPU error: "@ + cause }
}

fn format_rom_error(cause: &String) -> (s: String)
    ensures
        s@ == machine_error_text(true, cause@),
{
    let mut s = "ROM load error: ".to_owned();
    s.append(cause.as_str());
    s
}

fn format_cpu_error(cause: &String) -> (s: String)
    ensures
        s@ == machine_error_text(false, cause@),
{
    let mut s = "CPU error: ".to_owned();
    s.append(cause.as_str());
    s
}

impl MachineError {
    /// Human-readable description.
    pub fn message(&self) -> (s: String)
        ensures
            s@ == match self {
                MachineError::Rom(e) => machine_error_text(true, e.message_text()),
                MachineError::Cpu(c) => machine_error_text(false, c@),
            },
    {
        match self {
            MachineError::Rom(e) => {
                let inner = e.message();
                format_rom_error(&inner)
            },
            MachineError::Cpu(c) => format_cpu_error(c),
        }
    }
}

/// What the host must do before the processor core executes: the level of
/// the IRQ line, whether an NMI edge arrived, and whether the instruction
/// was already satisfied by the host-input path (then the core skips it).
#[derive(Clone, Copy, Debug)]
pub struct StepStart {
    pub irq: bool,
    pub nmi: bool,
    pub intercepted: bool,
}

/// A byte as typed: newline becomes the BBC's carriage return.
pub open spec fn typed_byte(b: u8) -> u8 {
    if b == 0x0A { 0x0D } else { b }
}

/// Free slots of the MOS keyboard buffer (page $03, 256 bytes, one slot
/// always left empty) with insert pointer `insert` and remove pointer
/// `remove`: (remove - insert - 1) mod 256.
pub open spec fn buffer_room(insert: u8, remove: u8) -> nat {
    ((remove as int + 511 - insert as int) % 256) as nat
}

/// Queued characters a flush moves into the keyboard buffer.
pub open spec fn flush_count(ram: Seq<u8>, q: Seq<u8>) -> nat {
    let room = buffer_room(ram[0x2E1], ram[0x2D8]);
    if q.len() < room { q.len() } else { room }
}

/// Position in the queue of the byte stored at buffer slot `slot` (0..256)
/// when filling starts at `insert`.
pub open spec fn slot_index(insert: u8, slot: int) -> int {
    (slot + 256 - insert) % 256
}

/// RAM with the first `n` queued bytes stored at successive buffer slots
/// from `insert` (wrapping within page $03).
pub open spec fn buffer_filled(ram: Seq<u8>, q: Seq<u8>, insert: u8, n: nat) -> Seq<u8> {
    Seq::new(
        ram.len(),
        |a: int|
            if 0x300 <= a < 0x400 && slot_index(insert, a - 0x300) < n {
                q[slot_index(insert, a - 0x300)]
            } else {
                ram[a]
            },
    )
}

/// RAM after a flush of queue `q`: the moved bytes stored, the insert
/// pointer ($02E1) advanced past them, the buffer-empty flag ($0256)
/// cleared. An empty queue changes nothing.
pub open spec fn flushed_ram(ram: Seq<u8>, q: Seq<u8>) -> Seq<u8> {
    if q.len() == 0 {
        ram
    } else {
        let insert = ram[0x2E1];
        let n = flush_count(ram, q);
        buffer_filled(ram, q, insert, n).update(0x2E1, ((insert + n) % 256) as u8).update(
            0x256,
            0,
        )
    }
}

/// The queue after a flush: the moved bytes gone.
pub open spec fn flushed_queue(ram: Seq<u8>, q: Seq<u8>) -> Seq<u8> {
    q.skip(flush_count(ram, q) as int)
}

/// Processor state after an RTS taken by the host: two bytes pulled from
/// the stack page, the program counter set one past the return address.
pub open spec fn after_rts(cpu: CpuState, ram: Seq<u8>) -> CpuState {
    let sp1 = (cpu.registers.sp + 1) % 256;
    let sp2 = (sp1 + 1) % 256;
    let lo = ram[0x100 + sp1];
    let hi = ram[0x100 + sp2];
    CpuState {
        registers: Registers {
            sp: sp2 as u8,
            pc: ((hi * 256 + lo + 1) % 65536) as u16,
            ..cpu.registers
        },
        ..cpu
    }
}

/// OSRDCH answered from the queue: A holds the next character, carry
/// clear, return to the caller, five cycles charged. `None` when the queue
/// is empty (the MOS routine then runs).
pub open spec fn osrdch_result(cpu: CpuState, ram: Seq<u8>, q: Seq<u8>) -> Option<
    (CpuState, Seq<u8>),
> {
    if q.len() == 0 {
        None
    } else {
        let c = CpuState {
            registers: Registers {
                a: q[0],
                status: (cpu.registers.status & 0xFE) | STATUS_UNUSED,
                ..cpu.registers
            },
            ..cpu
        };
        let c = after_rts(c, ram);
        Some((CpuState { cycles: ((c.cycles + 5) % 0x1_0000_0000_0000_0000) as u64, ..c }, q.drop_first()))
    }
}

/// OSBYTE &81 with Y = &FF (negative INKEY) answered from the queue: a
/// waiting character reports as pressed (X = the character, Y = 0, carry
/// clear), else not pressed (Y = &FF, carry set); eight cycles charged.
/// Other calls are left to the MOS.
pub open spec fn osbyte_result(cpu: CpuState, ram: Seq<u8>, q: Seq<u8>) -> Option<CpuState> {
    if cpu.registers.a != 0x81 || cpu.registers.y != 0xFF {
        None
    } else {
        let regs = if q.len() > 0 {
            Registers {
                x: q[0],
                y: 0,
                status: (cpu.registers.status & 0xFE) | STATUS_UNUSED,
                ..cpu.registers
            }
        } else {
            Registers { y: 0xFF, status: cpu.registers.status | 0x01, ..cpu.registers }
        };
        let c = after_rts(CpuState { registers: regs, ..cpu }, ram);
        Some(CpuState { cycles: ((c.cycles + 8) % 0x1_0000_0000_0000_0000) as u64, ..c })
    }
}

/// Outcome of intercepting the MOS entry at `cpu`'s program counter, given
/// RAM and queue after the flush.
pub open spec fn intercept_outcome(cpu: CpuState, ram: Seq<u8>, q: Seq<u8>) -> Option<
    (CpuState, Seq<u8>),
> {
    if cpu.registers.pc == OSRDCH_VEC {
        osrdch_result(cpu, ram, q)
    } else if cpu.registers.pc == OSBYTE_VEC {
        match osbyte_result(cpu, ram, q) {
            Some(c) => Some((c, q)),
            None => None,
        }
    } else {
        None
    }
}

/// Interrupt request level of the hardware: either VIA or the ACIA.
pub open spec fn hardware_irq(hw: Hardware) -> bool {
    hw.system_via.via.pending_irq() || hw.user_via.via.pending_irq() || hw.acia.irq
}

/// The System VIA after `n` cycles of the device fan-out: /VSYNC sampled
/// on CA1, the timers run, then the ADC's end-of-conversion pulsed on CB1
/// when it fired.
pub open spec fn system_via_stepped(sv: SystemVia, vsync: bool, n: u32, eoc: bool) -> Via6522 {
    let v1 = sv.via.with_ca1(vsync);
    let t = v1.ticked(n);
    let v2 = t.with_ca2(SystemVia { via: t, ..sv }.keyboard_ca2());
    if eoc { v2.with_cb1(true).with_cb1(false) } else { v2 }
}

/// The insert pointer catches up with the remove pointer exactly when the
/// buffer's free slots are used up.
proof fn lemma_buffer_full(insert0: u8, remove: u8, k: int)
    requires
        0 <= k <= buffer_room(insert0, remove),
    ensures
        ((insert0 + k + 1) % 256 == remove) <==> k == buffer_room(insert0, remove),
{
}

/// Storing queued byte `k` at its slot extends the filled buffer by one.
proof fn lemma_fill_step(ram: Seq<u8>, q: Seq<u8>, insert: u8, k: nat)
    requires
        ram.len() == 0x8000,
        k < 255,
        k < q.len(),
    ensures
        buffer_filled(ram, q, insert, k).update(0x300 + (insert + k) % 256, q[k as int])
            =~= buffer_filled(ram, q, insert, k + 1),
{
    let slot = (insert + k) % 256;
    assert(slot_index(insert, slot) == k);
    assert forall|s: int| 0 <= s < 256 && s != slot implies #[trigger] slot_index(insert, s) != k by {}
}

/// Cycles spent and instructions executed by a run.
pub struct RunReport {
    pub cycles_spent: u64,
    pub instructions: u64,
}

pub struct Machine {
    pub cpu: CpuState,
    pub bus: BbcBus,
    pub renderer: Renderer,
    /// Cycles run since the devices were last advanced.
    pub cycles_since_crtc_tick: u64,
    /// Host characters waiting to be typed, oldest first.
    pub typed_chars: VecDeque<u8>,
    /// When set, queued characters are fed to the MOS through its keyboard
    /// buffer and its OSRDCH / OSBYTE entries.
    pub host_input_passthrough: bool,
}

impl Machine {
    /// Characters still waiting to be typed.
    pub open spec fn typed(&self) -> Seq<u8> {
        self.typed_chars@
    }

    /// Cycles not yet passed on to the devices.
    pub open spec fn crtc_backlog(&self) -> u64 {
        self.cycles_since_crtc_tick
    }

    pub open spec fn wf(&self) -> bool {
        self.bus.wf() && self.crtc_backlog() < 16
    }

    /// Build the machine: memory from the configuration, hardware at power
    /// on, the renderer's character set from the MOS at $C000. The
    /// processor registers start at zero for the core to reset.
    pub fn new(config: MachineConfig) -> (r: Result<Self, MachineError>)
        ensures
            match r {
                Ok(m) => {
                    &&& m.wf()
                    &&& m.bus.memory@.wf()
                    &&& m.bus.memory@.ram == Seq::new(0x8000, |i: int| 0xFFu8)
                    &&& m.bus.memory@.mos == match config.memory.mos_rom_bytes {
                        Some(b) => b@,
                        None => Seq::new(0x4000, |i: int| 0xFFu8),
                    }
                    &&& m.bus.memory@.selected_bank == config.memory.initial_bank % 16
                    &&& forall|i: int|
                        0 <= i < 16 ==> #[trigger] m.bus.memory@.banks[i] == match config.memory.rom_banks@[i] {
                            Some(b) => Some(crate::memory::mirrored(b@)),
                            None => None,
                        }
                    &&& forall|i: int|
                        0 <= i < 768 ==> #[trigger] m.renderer.font@[i] == m.bus.memory@.mos[i]
                    &&& m.renderer.frame_count == 0
                    &&& m.bus.hardware.powered_on()
                    &&& m.typed().len() == 0
                    &&& m.crtc_backlog() == 0
                    &&& m.host_input_passthrough
                    &&& m.cpu.cycles == 0
                },
                Err(e) => e is Rom,
            },
            (config.memory.mos_rom_bytes matches Some(b) ==> b@.len() == 0x4000) ==> (r is Ok
                <==> forall|i: int|
                0 <= i < 16 ==> crate::memory::bank_image_ok(
                    #[trigger] config.memory.rom_banks@[i],
                )),
            (config.memory.mos_rom_bytes matches Some(b) && b@.len() != 0x4000) ==> r is Err,
    {
        let memory = match Memory::new(config.memory) {
            Ok(m) => m,
            Err(e) => {
                return Err(MachineError::Rom(e));
            },
        };
        proof {
            Memory::lemma_wf(memory);
        }
        let bus = BbcBus::new(memory);
        let mut renderer = Renderer::new();
        let mut font_window = [0u8; 768];
        let mut i: usize = 0;
        while i < 768
            invariant
                i <= 768,
                bus.wf(),
                bus.memory@.mos.len() == 0x4000,
                forall|j: int| 0 <= j < i ==> #[trigger] font_window@[j] == bus.memory@.mos[j],
            decreases 768 - i,
        {
            font_window[i] = bus.memory.mos_byte(0xC000 + i as u16);
            i = i + 1;
        }
        renderer.set_font_from_mos(&font_window);
        Ok(Machine {
            cpu: CpuState::new(),
            bus,
            renderer,
            cycles_since_crtc_tick: 0,
            typed_chars: VecDeque::new(),
            host_input_passthrough: true,
        })
    }

    /// Queue a string to be typed; newlines become carriage returns.
    pub fn type_string(&mut self, s: &str)
        ensures
            final(self).typed() == old(self).typed() + s.spec_bytes().map_values(
                |b: u8| typed_byte(b),
            ),
            final(self).cpu == old(self).cpu,
            final(self).bus == old(self).bus,
            final(self).renderer == old(self).renderer,
            final(self).crtc_backlog() == old(self).crtc_backlog(),
            final(self).host_input_passthrough == old(self).host_input_passthrough,
    {
        let bytes = s.as_bytes();
        let mut i: usize = 0;
        while i < bytes.len()
            invariant
                i <= bytes@.len(),
                bytes@ == s.spec_bytes(),
                self.typed_chars@ == old(self).typed_chars@ + bytes@.subrange(0, i as int).map_values(
                    |b: u8| typed_byte(b),
                ),
                self.cpu == old(self).cpu,
                self.bus == old(self).bus,
                self.renderer == old(self).renderer,
                self.cycles_since_crtc_tick == old(self).cycles_since_crtc_tick,
                self.host_input_passthrough == old(self).host_input_passthrough,
            decreases bytes@.len() - i,
        {
            let b = bytes[i];
            let t: u8 = if b == 0x0A { 0x0D } else { b };
            self.typed_chars.push_back(t);
            assert(bytes@.subrange(0, i + 1) =~= bytes@.subrange(0, i as int).push(b));
            assert(bytes@.subrange(0, i + 1).map_values(|b: u8| typed_byte(b)) =~= bytes@.subrange(
                0,
                i as int,
            ).map_values(|b: u8| typed_byte(b)).push(t));
            i = i + 1;
        }
        assert(bytes@.subrange(0, bytes@.len() as int) =~= bytes@);
    }

    /// Queue one byte, as it is.
    pub fn type_byte(&mut self, b: u8)
        ensures
            final(self).typed() == old(self).typed().push(b),
            final(self).cpu == old(self).cpu,
            final(self).bus == old(self).bus,
            final(self).renderer == old(self).renderer,
            final(self).crtc_backlog() == old(self).crtc_backlog(),
            final(self).host_input_passthrough == old(self).host_input_passthrough,
    {
        self.typed_chars.push_back(b);
    }

    /// Whether characters are still waiting to be typed.
    pub fn has_typed_chars(&self) -> (b: bool)
        ensures
            b == (self.typed().len() > 0),
    {
        self.typed_chars.len() > 0
    }

    /// Number of characters still waiting to be typed.
    pub fn typed_chars_len(&self) -> (n: usize)
        ensures
            n == self.typed().len(),
    {
        self.typed_chars.len()
    }

    /// Drive joystick axis `channel` (0..=3) of the analogue port.
    pub fn set_joystick_axis(&mut self, channel: usize, value: AnalogValue)
        ensures
            final(self).bus.hardware.adc.inputs@ == if channel < 4 {
                old(self).bus.hardware.adc.inputs@.update(channel as int, value)
            } else {
                old(self).bus.hardware.adc.inputs@
            },
            final(self).bus.hardware == (Hardware { adc: final(self).bus.hardware.adc, ..old(self).bus.hardware }),
            final(self).bus.hardware.adc == (UpD7002 { inputs: final(self).bus.hardware.adc.inputs, ..old(self).bus.hardware.adc }),
            final(self).bus.memory == old(self).bus.memory,
            final(self).cpu == old(self).cpu,
            final(self).renderer == old(self).renderer,
            final(self).typed() == old(self).typed(),
            final(self).crtc_backlog() == old(self).crtc_backlog(),
            final(self).host_input_passthrough == old(self).host_input_passthrough,
    {
        self.bus.hardware.adc.set_input(channel, value);
    }

    /// Fire button `button` (0 or 1) on System VIA port B bit 4 or 5,
    /// pulled low while pressed. Other buttons are not wired.
    pub fn set_joystick_button(&mut self, button: usize, pressed: bool)
        ensures
            ({
                let irb = old(self).bus.hardware.system_via.via.irb;
                let bit: u8 = if button == 0 { 0x10 } else { 0x20 };
                final(self).bus.hardware.system_via.via.irb == if button > 1 {
                    irb
                } else if pressed {
                    irb & !bit
                } else {
                    irb | bit
                }
            }),
            final(self).bus.hardware.system_via.via == (Via6522 {
                irb: final(self).bus.hardware.system_via.via.irb,
                ..old(self).bus.hardware.system_via.via
            }),
            final(self).bus.hardware.system_via == (SystemVia {
                via: final(self).bus.hardware.system_via.via,
                ..old(self).bus.hardware.system_via
            }),
            final(self).bus.hardware == (Hardware {
                system_via: final(self).bus.hardware.system_via,
                ..old(self).bus.hardware
            }),
            final(self).bus.memory == old(self).bus.memory,
            final(self).cpu == old(self).cpu,
            final(self).renderer == old(self).renderer,
            final(self).typed() == old(self).typed(),
            final(self).crtc_backlog() == old(self).crtc_backlog(),
            final(self).host_input_passthrough == old(self).host_input_passthrough,
    {
        if button > 1 {
            return ;
        }
        let bit: u8 = if button == 0 { 0x10 } else { 0x20 };
        if pressed {
            self.bus.hardware.system_via.via.irb = self.bus.hardware.system_via.via.irb & !bit;
        } else {
            self.bus.hardware.system_via.via.irb = self.bus.hardware.system_via.via.irb | bit;
        }
    }

    /// Move queued characters into the MOS keyboard buffer (page $03, insert
    /// pointer $02E1, remove pointer $02D8) until it is full, then clear the
    /// buffer-empty flag at $0256.
    fn flush_typed_into_keyboard_buffer(&mut self)
        requires
            old(self).wf(),
        ensures
            final(self).wf(),
            final(self).bus.memory@ == (MemoryState {
                ram: flushed_ram(old(self).bus.memory@.ram, old(self).typed()),
                ..old(self).bus.memory@
            }),
            final(self).typed() == flushed_queue(old(self).bus.memory@.ram, old(self).typed()),
            final(self).bus.hardware == old(self).bus.hardware,
            final(self).cpu == old(self).cpu,
            final(self).renderer == old(self).renderer,
            final(self).crtc_backlog() == old(self).crtc_backlog(),
            final(self).host_input_passthrough == old(self).host_input_passthrough,
    {
        proof {
            Memory::lemma_wf(self.bus.memory);
        }
        let ghost ram0 = self.bus.memory@.ram;
        let ghost q0 = self.typed_chars@;
        if self.typed_chars.len() == 0 {
            assert(q0.skip(0) =~= q0);
            return ;
        }
        let insert0 = self.bus.memory.read(0x02E1);
        let remove = self.bus.memory.read(0x02D8);
        let mut insert = insert0;
        let ghost room = buffer_room(insert0, remove);
        let mut k: usize = 0;
        assert(buffer_filled(ram0, q0, insert0, 0) =~= ram0);
        assert(q0.skip(0) =~= q0);
        while self.typed_chars.len() > 0
            invariant
                self.bus.wf(),
                self.bus.memory@.wf(),
                self.bus.hardware == old(self).bus.hardware,
                self.cpu == old(self).cpu,
                self.renderer == old(self).renderer,
                self.cycles_since_crtc_tick == old(self).cycles_since_crtc_tick,
                self.host_input_passthrough == old(self).host_input_passthrough,
                self.cycles_since_crtc_tick < 16,
                ram0 == old(self).bus.memory@.ram,
                q0 == old(self).typed_chars@,
                insert0 == ram0[0x2E1],
                remove == ram0[0x2D8],
                room == buffer_room(insert0, remove),
                k <= room,
                k <= q0.len(),
                insert == (insert0 + k) % 256,
                self.typed_chars@ == q0.skip(k as int),
                self.bus.memory@ == (MemoryState {
                    ram: buffer_filled(ram0, q0, insert0, k as nat),
                    ..old(self).bus.memory@
                }),
            ensures
                k == flush_count(ram0, q0),
                insert == (insert0 + k) % 256,
                self.typed_chars@ == q0.skip(k as int),
                self.bus.memory@ == (MemoryState {
                    ram: buffer_filled(ram0, q0, insert0, k as nat),
                    ..old(self).bus.memory@
                }),
            decreases self.typed_chars@.len(),
        {
            let ch = self.typed_chars[0];
            let next: u8 = if insert == 255 { 0 } else { insert + 1 };
            proof {
                lemma_buffer_full(insert0, remove, k as int);
            }
            if next == remove {
                break;
            }
            assert(k < room);
            let slot: u16 = 0x0300 + insert as u16;
            self.bus.memory.write(slot, ch);
            insert = next;
            self.typed_chars.pop_front();
            proof {
                lemma_fill_step(ram0, q0, insert0, k as nat);
                assert(self.typed_chars@ =~= q0.skip(k + 1));
            }
            k = k + 1;
        }
        self.bus.memory.write(0x02E1, insert);
        self.bus.memory.write(0x0256, 0);
        proof {
            assert(self.bus.memory@.ram =~= flushed_ram(ram0, q0));
        }
    }

    /// Pull one byte from the stack page (the stack pointer is
    /// pre-incremented).
    fn read_stack(&mut self) -> (v: u8)
        requires
            old(self).wf(),
        ensures
            final(self).wf(),
            final(self).cpu == (CpuState {
                registers: Registers {
                    sp: ((old(self).cpu.registers.sp + 1) % 256) as u8,
                    ..old(self).cpu.registers
                },
                ..old(self).cpu
            }),
            v == old(self).bus.memory@.ram[0x100 + (old(self).cpu.registers.sp + 1) % 256],
            final(self).bus == old(self).bus,
            final(self).renderer == old(self).renderer,
            final(self).typed_chars == old(self).typed_chars,
            final(self).cycles_since_crtc_tick == old(self).cycles_since_crtc_tick,
            final(self).host_input_passthrough == old(self).host_input_passthrough,
    {
        self.cpu.registers.sp = if self.cpu.registers.sp == 255 {
            0
        } else {
            self.cpu.registers.sp + 1
        };
        let addr: u16 = 0x0100 + self.cpu.registers.sp as u16;
        self.bus.memory.read(addr)
    }

    /// Return from the intercepted subroutine on the caller's behalf.
    fn rts(&mut self)
        requires
            old(self).wf(),
        ensures
            final(self).wf(),
            final(self).cpu == after_rts(old(self).cpu, old(self).bus.memory@.ram),
            final(self).bus == old(self).bus,
            final(self).renderer == old(self).renderer,
            final(self).typed_chars == old(self).typed_chars,
            final(self).cycles_since_crtc_tick == old(self).cycles_since_crtc_tick,
            final(self).host_input_passthrough == old(self).host_input_passthrough,
    {
        let lo = self.read_stack();
        let hi = self.read_stack();
        let target: u32 = hi as u32 * 256 + lo as u32;
        self.cpu.registers.pc = ((target + 1) % 65536) as u16;
    }

    /// OSRDCH from the queue, when a character is waiting.
    fn intercept_osrdch(&mut self) -> (taken: bool)
        requires
            old(self).wf(),
        ensures
            final(self).wf(),
            match osrdch_result(old(self).cpu, old(self).bus.memory@.ram, old(self).typed()) {
                Some((c, q)) => taken && final(self).cpu == c && final(self).typed() == q,
                None => !taken && final(self).cpu == old(self).cpu && final(self).typed()
                    == old(self).typed(),
            },
            final(self).bus == old(self).bus,
            final(self).renderer == old(self).renderer,
            final(self).cycles_since_crtc_tick == old(self).cycles_since_crtc_tick,
            final(self).host_input_passthrough == old(self).host_input_passthrough,
    {
        let ch = match self.typed_chars.pop_front() {
            Some(ch) => ch,
            None => {
                return false;
            },
        };
        self.cpu.registers.a = ch;
        let p = self.cpu.registers.status & 0xFE;
        self.cpu.registers.status = p | STATUS_UNUSED;
        self.rts();
        self.cpu.cycles = self.cpu.cycles.wrapping_add(5);
        true
    }

    /// OSBYTE &81 with Y = &FF answered from the queue.
    fn intercept_osbyte(&mut self) -> (taken: bool)
        requires
            old(self).wf(),
        ensures
            final(self).wf(),
            match osbyte_result(old(self).cpu, old(self).bus.memory@.ram, old(self).typed()) {
                Some(c) => taken && final(self).cpu == c,
                None => !taken && final(self).cpu == old(self).cpu,
            },
            final(self).typed_chars == old(self).typed_chars,
            final(self).bus == old(self).bus,
            final(self).renderer == old(self).renderer,
            final(self).cycles_since_crtc_tick == old(self).cycles_since_crtc_tick,
            final(self).host_input_passthrough == old(self).host_input_passthrough,
    {
        if self.cpu.registers.a != 0x81 || self.cpu.registers.y != 0xFF {
            return false;
        }
        if self.typed_chars.len() > 0 {
            self.cpu.registers.x = self.typed_chars[0];
            self.cpu.registers.y = 0;
            let p = self.cpu.registers.status & 0xFE;
            self.cpu.registers.status = p | STATUS_UNUSED;
        } else {
            self.cpu.registers.y = 0xFF;
            self.cpu.registers.status = self.cpu.registers.status | 0x01;
        }
        self.rts();
        self.cpu.cycles = self.cpu.cycles.wrapping_add(8);
        true
    }

    /// With the host-input path on: top up the keyboard buffer, then answer
    /// OSRDCH / OSBYTE &81 if the processor is at their entry. Returns
    /// whether the instruction was taken care of.
    fn try_intercept(&mut self) -> (taken: bool)
        requires
            old(self).wf(),
        ensures
            final(self).wf(),
            final(self).bus.hardware == old(self).bus.hardware,
            final(self).renderer == old(self).renderer,
            final(self).cycles_since_crtc_tick == old(self).cycles_since_crtc_tick,
            final(self).host_input_passthrough == old(self).host_input_passthrough,
            !old(self).host_input_passthrough ==> !taken && final(self).cpu == old(self).cpu
                && final(self).typed() == old(self).typed()
                && final(self).bus.memory@ == old(self).bus.memory@,
            old(self).host_input_passthrough ==> ({
                let ram = flushed_ram(old(self).bus.memory@.ram, old(self).typed());
                let q = flushed_queue(old(self).bus.memory@.ram, old(self).typed());
                &&& final(self).bus.memory@ == (MemoryState { ram, ..old(self).bus.memory@ })
                &&& match intercept_outcome(old(self).cpu, ram, q) {
                    Some((c, q2)) => taken && final(self).cpu == c && final(self).typed() == q2,
                    None => !taken && final(self).cpu == old(self).cpu && final(self).typed() == q,
                }
            }),
    {
        if !self.host_input_passthrough {
            return false;
        }
        self.flush_typed_into_keyboard_buffer();
        let pc = self.cpu.registers.pc;
        if pc == OSRDCH_VEC {
            self.intercept_osrdch()
        } else if pc == OSBYTE_VEC {
            self.intercept_osbyte()
        } else {
            false
        }
    }

    /// First half of an instruction step: sample the IRQ line, take an NMI
    /// edge from the FDC, and try the host-input interception.
    pub fn begin_step(&mut self) -> (start: StepStart)
        requires
            old(self).wf(),
        ensures
            final(self).wf(),
            start.irq == hardware_irq(old(self).bus.hardware),
            start.nmi == old(self).bus.hardware.fdc@.nmi_pending,
            final(self).bus.hardware.fdc@ == (FdcState {
                nmi_pending: false,
                ..old(self).bus.hardware.fdc@
            }),
            final(self).bus.hardware == (Hardware {
                fdc: final(self).bus.hardware.fdc,
                ..old(self).bus.hardware
            }),
            final(self).renderer == old(self).renderer,
            final(self).cycles_since_crtc_tick == old(self).cycles_since_crtc_tick,
            final(self).host_input_passthrough == old(self).host_input_passthrough,
            !old(self).host_input_passthrough ==> !start.intercepted && final(self).cpu == old(self).cpu
                && final(self).typed() == old(self).typed()
                && final(self).bus.memory@ == old(self).bus.memory@,
            old(self).host_input_passthrough ==> ({
                let ram = flushed_ram(old(self).bus.memory@.ram, old(self).typed());
                let q = flushed_queue(old(self).bus.memory@.ram, old(self).typed());
                &&& final(self).bus.memory@ == (MemoryState { ram, ..old(self).bus.memory@ })
                &&& match intercept_outcome(old(self).cpu, ram, q) {
                    Some((c, q2)) => start.intercepted && final(self).cpu == c && final(self).typed()
                        == q2,
                    None => !start.intercepted && final(self).cpu == old(self).cpu
                        && final(self).typed() == q,
                }
            }),
    {
        let irq = self.bus.hardware.poll_irq();
        let nmi = self.bus.hardware.poll_nmi_edge();
        let intercepted = self.try_intercept();
        StepStart { irq, nmi, intercepted }
    }

    /// Second half of an instruction step: the cycles run since
    /// `cycles_before` join the backlog; once it reaches 16 the devices
    /// are advanced by it (CRTC, /VSYNC to the System VIA, both VIAs'
    /// timers, FDC, ADC with its end-of-conversion pulsed on CB1) and it is
    /// cleared. Returns the cycles the step took.
    pub fn finish_step(&mut self, cycles_before: u64) -> (dt: u64)
        requires
            old(self).wf(),
            cycles_before <= old(self).cpu.cycles,
            old(self).cycles_since_crtc_tick + (old(self).cpu.cycles - cycles_before) <= u64::MAX,
        ensures
            final(self).wf(),
            dt == old(self).cpu.cycles - cycles_before,
            final(self).cpu == old(self).cpu,
            final(self).bus.memory == old(self).bus.memory,
            final(self).renderer == old(self).renderer,
            final(self).typed_chars == old(self).typed_chars,
            final(self).host_input_passthrough == old(self).host_input_passthrough,
            ({
                let total = old(self).cycles_since_crtc_tick + dt;
                let old_hw = old(self).bus.hardware;
                let hw = final(self).bus.hardware;
                if total < 16 {
                    &&& final(self).cycles_since_crtc_tick == total
                    &&& hw == old_hw
                } else {
                    let n = total as u32;
                    let crtc = old_hw.crtc.ticked(n).0;
                    let adc = old_hw.adc.ticked(n);
                    &&& final(self).cycles_since_crtc_tick == 0
                    &&& hw.crtc == crtc
                    &&& hw.system_via.via == system_via_stepped(
                        old_hw.system_via,
                        crtc.vsync_active,
                        n,
                        adc.eoc_edge,
                    )
                    &&& hw.system_via == (SystemVia { via: hw.system_via.via, ..old_hw.system_via })
                    &&& hw.user_via.via == old_hw.user_via.via.ticked(n)
                    &&& hw.fdc@ == old_hw.fdc@.ticked(n)
                    &&& hw.adc == (UpD7002 { eoc_edge: false, ..adc })
                    &&& hw.log == old_hw.log
                    &&& hw.video_ula == old_hw.video_ula
                    &&& hw.sound == old_hw.sound
                    &&& hw.acia == old_hw.acia
                    &&& hw.serial_ula == old_hw.serial_ula
                }
            }),
    {
        let dt = self.cpu.cycles - cycles_before;
        self.cycles_since_crtc_tick = self.cycles_since_crtc_tick + dt;
        if self.cycles_since_crtc_tick >= 16 {
            let n = self.cycles_since_crtc_tick as u32;
            self.bus.hardware.crtc.tick(n);
            let vsync = self.bus.hardware.crtc.vsync_active;
            self.bus.hardware.system_via.pulse_vsync(vsync);
            self.bus.hardware.system_via.tick(n);
            self.bus.hardware.user_via.tick(n);
            self.bus.hardware.fdc.tick(n);
            self.bus.hardware.adc.tick(n);
            if self.bus.hardware.adc.poll_eoc_edge() {
                self.bus.hardware.system_via.via.set_cb1(true);
                self.bus.hardware.system_via.via.set_cb1(false);
            }
            self.cycles_since_crtc_tick = 0;
        }
        dt
    }

    /// Whether a run that started at `start_cycles` goes on: fewer than
    /// `target_cycles` cycles spent (the counter may wrap) and fewer than
    /// `max_instructions` instructions executed.
    pub fn run_continues(
        &self,
        start_cycles: u64,
        target_cycles: u64,
        executed: u64,
        max_instructions: u64,
    ) -> (go: bool)
        ensures
            go == ((self.cpu.cycles - start_cycles) % 0x1_0000_0000_0000_0000 < target_cycles
                && executed < max_instructions),
    {
        self.cpu.cycles.wrapping_sub(start_cycles) < target_cycles && executed < max_instructions
    }

    /// Summary of a run that started at `start_cycles`.
    pub fn run_report(&self, start_cycles: u64, executed: u64) -> (r: RunReport)
        requires
            start_cycles <= self.cpu.cycles,
        ensures
            r.cycles_spent == self.cpu.cycles - start_cycles,
            r.instructions == executed,
    {
        RunReport { cycles_spent: self.cpu.cycles - start_cycles, instructions: executed }
    }

    /// Render the current screen into `fb`.
    pub fn render_into(&mut self, fb: &mut Framebuffer)
        requires
            old(self).wf(),
            old(fb).wf(),
        ensures
            final(self).wf(),
            final(fb).wf(),
            final(self).renderer.frame_count == (old(self).renderer.frame_count + 1)
                % 0x1_0000_0000,
            final(self).renderer.font == old(self).renderer.font,
            forall|i: int|
                0 <= i < SCREEN_PIXELS ==> #[trigger] final(fb).pixels@[i] == frame_pixel(
                    old(self).renderer.font@,
                    final(self).renderer.frame_count,
                    old(self).bus.memory@.ram,
                    old(self).bus.hardware.crtc.regs@,
                    old(self).bus.hardware.video_ula,
                    i,
                ),
            final(self).cpu == old(self).cpu,
            final(self).bus == old(self).bus,
            final(self).typed_chars == old(self).typed_chars,
            final(self).cycles_since_crtc_tick == old(self).cycles_since_crtc_tick,
            final(self).host_input_passthrough == old(self).host_input_passthrough,
    {
        proof {
            Memory::lemma_wf(self.bus.memory);
        }
        self.renderer.render(
            fb,
            self.bus.memory.ram(),
            &self.bus.hardware.crtc,
            &self.bus.hardware.video_ula,
        );
    }
}

} // verus!
