//! Binary machine snapshot, little-endian, version 1:
//!
//! ```text
//! offset  size  field
//!     0     4   magic "BBC1"
//!     4     1   format version (1)
//!     5     1   selected paged-ROM bank
//!     6     2   reserved (0)
//!     8     8   cpu cycles
//!    16     5   A, X, Y, SP, P
//!    21     1   reserved
//!    22     2   PC
//!    24     2   CRTC scanline in frame
//!    26     2   CRTC cycle in scanline
//!    28    18   CRTC registers
//!    46     1   Video ULA control
//!    47     1   Video ULA screen-size code
//!    48    16   Video ULA palette
//!    64     1   System VIA IC32 latch
//!    65    10   keyboard matrix
//!    75     5   reserved
//!    80     8   sound channel periods (4 x u16)
//!    88     4   sound channel attenuations
//!    92     1   sound noise control
//!    93    19   reserved
//!   112     4   drive 0 track, drive 1 track, current drive, side
//!   116 32768   RAM
//! ```
//!
//! Disc images, ROMs and host-side state are not saved: a snapshot is
//! loaded into a machine rebuilt with the same configuration.
use vstd::prelude::*;
use crate::text::{append_decimal, decimal};
use crate::le::{le16, le64, zeros, push_bytes, push_le16, push_le64, push_zeros};
use crate::machine::{CpuState, Machine, Registers};
use crate::memory::{Memory, MemoryState, RAM_SIZE};
use crate::sn76489::{Channel, Sn76489};
use crate::crtc::Crtc6845;
use crate::fdc8271::{DriveState, FdcState};
use crate::hardware::Hardware;
use crate::system_via::SystemVia;
use crate::video_ula::VideoUla;

verus! {

pub const MAGIC: [u8; 4] = [0x42, 0x42, 0x43, 0x31];

pub const VERSION: u8 = 1;

pub const RAM_OFFSET: usize = 116;

pub const SNAPSHOT_LEN: usize = 32884;

#[derive(Debug)]
pub enum SnapshotError {
    /// The snapshot file could not be read or written (`0` describes why).
    Io(String),
    BadMagic,
    BadVersion(u8),
    WrongSize { expected: usize, actual: usize },
}

/// Text of a snapshot error.
pub open spec fn snapshot_error_text(e: SnapshotError) -> Seq<char> {
    match e {
        SnapshotError::Io(m) => m@,
        SnapshotError::BadMagic => "not a BBC Micro snapshot (bad magic)"@,
        SnapshotError::BadVersion(v) => "unsupported snapshot version "@ + decimal(v as nat),
        SnapshotError::WrongSize { expected, actual } => "snapshot wrong size: expected "@
            + decimal(expected as nat) + " bytes, got "@ + decimal(actual as nat),
    }
}

fn format_bad_version(v: u8) -> (s: String)
    ensures
        s@ == snapshot_error_text(SnapshotError::BadVersion(v)),
{
    let mut s = "unsupported snapshot version ".to_owned();
    append_decimal(&mut s, v as u64);
    s
}

fn format_wrong_size(expected: usize, actual: usize) -> (s: String)
    ensures
        s@ == snapshot_error_text(SnapshotError::WrongSize { expected, actual }),
{
    let mut s = "snapshot wrong size: expected ".to_owned();
    append_decimal(&mut s, expected as u64);
    s.append(" bytes, got ");
    append_decimal(&mut s, actual as u64);
    s
}

impl SnapshotError {
    /// Human-readable description.
    pub fn message(&self) -> (s: String)
        ensures
            s@ == snapshot_error_text(*self),
    {
        match self {
            SnapshotError::Io(m) => m.clone(),
            SnapshotError::BadMagic => "not a BBC Micro snapshot (bad magic)".to_owned(),
            SnapshotError::BadVersion(v) => format_bad_version(*v),
            SnapshotError::WrongSize { expected, actual } => format_wrong_size(*expected, *actual),
        }
    }
}

/// Everything a snapshot records.
pub ghost struct Saved {
    pub selected_bank: u8,
    pub cycles: u64,
    pub a: u8,
    pub x: u8,
    pub y: u8,
    pub sp: u8,
    pub status: u8,
    pub pc: u16,
    pub scanline_in_frame: u16,
    pub cycle_in_scanline: u16,
    pub crtc_regs: Seq<u8>,
    pub ula_control: u8,
    pub screen_size_code: u8,
    pub palette: Seq<u8>,
    pub ic32: u8,
    pub keys: Seq<u8>,
    pub periods: Seq<u16>,
    pub attenuations: Seq<u8>,
    pub noise_ctrl: u8,
    pub tracks: Seq<u8>,
    pub cur_drive: u8,
    pub side: u8,
    pub ram: Seq<u8>,
}

impl Saved {
    /// Field sizes as in the layout, and values a machine can hold.
    pub open spec fn wf(self) -> bool {
        &&& self.crtc_regs.len() == 18
        &&& self.palette.len() == 16
        &&& self.keys.len() == 10
        &&& self.periods.len() == 4
        &&& self.attenuations.len() == 4
        &&& self.tracks.len() == 2
        &&& self.ram.len() == RAM_SIZE
        &&& self.selected_bank < 16
        &&& self.cur_drive < 2
        &&& self.side < 2
        &&& forall|c: int| 0 <= c < 4 ==> #[trigger] self.attenuations[c] < 16
    }
}

/// The recorded state of a machine.
pub open spec fn saved(m: &Machine) -> Saved {
    let hw = m.bus.hardware;
    Saved {
        selected_bank: m.bus.memory@.selected_bank,
        cycles: m.cpu.cycles,
        a: m.cpu.registers.a,
        x: m.cpu.registers.x,
        y: m.cpu.registers.y,
        sp: m.cpu.registers.sp,
        status: m.cpu.registers.status,
        pc: m.cpu.registers.pc,
        scanline_in_frame: hw.crtc.scanline_in_frame,
        cycle_in_scanline: hw.crtc.cycle_in_scanline,
        crtc_regs: hw.crtc.regs@,
        ula_control: hw.video_ula.control,
        screen_size_code: hw.video_ula.screen_size_code,
        palette: hw.video_ula.palette@,
        ic32: hw.system_via.ic32,
        keys: hw.system_via.keys@,
        periods: Seq::new(4, |c: int| hw.sound.channels@[c].period),
        attenuations: Seq::new(4, |c: int| hw.sound.channels@[c].attenuation),
        noise_ctrl: hw.sound.noise_ctrl,
        tracks: seq![hw.fdc@.drives[0].track, hw.fdc@.drives[1].track],
        cur_drive: hw.fdc@.cur_drive as u8,
        side: hw.fdc@.side,
        ram: m.bus.memory@.ram,
    }
}

/// Bytes 0-7: magic, version, bank, two reserved bytes.
pub open spec fn id_part(s: Saved) -> Seq<u8> {
    seq![0x42u8, 0x42u8, 0x43u8, 0x31u8, VERSION, s.selected_bank, 0u8, 0u8]
}

/// Bytes 8-23: cycle count, registers, a reserved byte, PC.
pub open spec fn cpu_part(s: Saved) -> Seq<u8> {
    le64(s.cycles) + seq![s.a, s.x, s.y, s.sp, s.status, 0u8] + le16(s.pc)
}

/// Bytes 24-79: CRTC counters and registers, Video ULA, IC32, keyboard,
/// five reserved bytes.
pub open spec fn video_part(s: Saved) -> Seq<u8> {
    le16(s.scanline_in_frame) + le16(s.cycle_in_scanline) + s.crtc_regs + seq![
        s.ula_control,
        s.screen_size_code,
    ] + s.palette + seq![s.ic32] + s.keys + zeros(5)
}

/// Bytes 80-115: sound, nineteen reserved bytes, floppy drives.
pub open spec fn device_part(s: Saved) -> Seq<u8> {
    le16(s.periods[0]) + le16(s.periods[1]) + le16(s.periods[2]) + le16(s.periods[3])
        + s.attenuations + seq![s.noise_ctrl] + zeros(19) + seq![
        s.tracks[0],
        s.tracks[1],
        s.cur_drive,
        s.side,
    ]
}

/// The snapshot bytes of a recorded state, in layout order.
pub open spec fn image(s: Saved) -> Seq<u8> {
    id_part(s) + cpu_part(s) + video_part(s) + device_part(s) + s.ram
}

/// 16-bit little-endian value at `off`.
pub open spec fn read16(b: Seq<u8>, off: int) -> u16 {
    (b[off] + 256 * b[off + 1]) as u16
}

/// 64-bit little-endian value at `off`.
pub open spec fn read64(b: Seq<u8>, off: int) -> u64 {
    (b[off] as u64) | ((b[off + 1] as u64) << 8) | ((b[off + 2] as u64) << 16) | ((b[off + 3] as u64)
        << 24) | ((b[off + 4] as u64) << 32) | ((b[off + 5] as u64) << 40) | ((b[off + 6] as u64)
        << 48) | ((b[off + 7] as u64) << 56)
}

/// The state a snapshot's bytes describe, as loaded: the bank number keeps
/// its low four bits (there are sixteen banks) and each attenuation its low
/// four bits (a channel's attenuation is a four-bit level, and the level
/// table has sixteen entries, so a larger byte could not be played). The
/// drive byte is kept whole; see `loaded_drive` for how it is applied.
pub open spec fn parsed(b: Seq<u8>) -> Saved {
    Saved {
        selected_bank: b[5] % 16,
        cycles: read64(b, 8),
        a: b[16],
        x: b[17],
        y: b[18],
        sp: b[19],
        status: b[20],
        pc: read16(b, 22),
        scanline_in_frame: read16(b, 24),
        cycle_in_scanline: read16(b, 26),
        crtc_regs: b.subrange(28, 46),
        ula_control: b[46],
        screen_size_code: b[47],
        palette: b.subrange(48, 64),
        ic32: b[64],
        keys: b.subrange(65, 75),
        periods: Seq::new(4, |c: int| read16(b, 80 + 2 * c)),
        attenuations: Seq::new(4, |c: int| b[88 + c] % 16),
        noise_ctrl: b[92],
        tracks: seq![b[112], b[113]],
        cur_drive: b[114],
        side: b[115] % 2,
        ram: b.subrange(116, 32884),
    }
}

/// The current drive after loading drive byte `byte` over drive `current`:
/// drives 0 and 1 are taken, any other value leaves the current drive.
pub open spec fn loaded_drive(byte: u8, current: usize) -> usize {
    if byte < 2 {
        byte as usize
    } else {
        current
    }
}

/// The machine's recorded state is one a snapshot can hold.
pub proof fn lemma_saved_wf(m: &Machine)
    requires
        m.wf(),
        m.bus.hardware.fdc@.side < 2,
    ensures
        saved(m).wf(),
{
    Memory::lemma_wf(m.bus.memory);
    let s = saved(m);
    assert forall|c: int| 0 <= c < 4 implies #[trigger] s.attenuations[c] < 16 by {
        assert(m.bus.hardware.sound.channels@[c].attenuation < 16);
    }
}

/// Whether `b` starts with the snapshot magic.
pub open spec fn has_magic(b: Seq<u8>) -> bool {
    b[0] == 0x42 && b[1] == 0x42 && b[2] == 0x43 && b[3] == 0x31
}

/// Reassembling the little-endian bytes of a 64-bit value gives it back.
proof fn lemma_le64_round_trip(v: u64)
    ensures
        read64(le64(v), 0) == v,
{
    let b = le64(v);
    let b0 = b[0];
    let b1 = b[1];
    let b2 = b[2];
    let b3 = b[3];
    let b4 = b[4];
    let b5 = b[5];
    let b6 = b[6];
    let b7 = b[7];
    assert((b0 as u64) | ((b1 as u64) << 8) | ((b2 as u64) << 16) | ((b3 as u64) << 24) | ((
    b4 as u64) << 32) | ((b5 as u64) << 40) | ((b6 as u64) << 48) | ((b7 as u64) << 56) == v)
        by (bit_vector)
        requires
            b0 == ((v >> 0u64) % 256) as u8,
            b1 == ((v >> 8u64) % 256) as u8,
            b2 == ((v >> 16u64) % 256) as u8,
            b3 == ((v >> 24u64) % 256) as u8,
            b4 == ((v >> 32u64) % 256) as u8,
            b5 == ((v >> 40u64) % 256) as u8,
            b6 == ((v >> 48u64) % 256) as u8,
            b7 == ((v >> 56u64) % 256) as u8,
    ;
}

proof fn lemma_cpu_fields(b: Seq<u8>, s: Saved)
    requires
        b.len() >= 24,
        b.subrange(8, 24) == cpu_part(s),
    ensures
        read64(b, 8) == s.cycles,
        b[16] == s.a && b[17] == s.x && b[18] == s.y && b[19] == s.sp && b[20] == s.status,
        read16(b, 22) == s.pc,
{
    let c = cpu_part(s);
    lemma_le64_round_trip(s.cycles);
    assert(c.subrange(0, 8) =~= le64(s.cycles));
    assert(read64(b, 8) == read64(c.subrange(0, 8), 0)) by {
        assert forall|k: int| 0 <= k < 8 implies #[trigger] b[8 + k] == c.subrange(0, 8)[k] by {
            assert(b.subrange(8, 24)[k] == b[8 + k]);
        }
    }
    assert(b.subrange(8, 24)[8] == b[16]);
    assert(b.subrange(8, 24)[9] == b[17]);
    assert(b.subrange(8, 24)[10] == b[18]);
    assert(b.subrange(8, 24)[11] == b[19]);
    assert(b.subrange(8, 24)[12] == b[20]);
    assert(b.subrange(8, 24)[14] == b[22]);
    assert(b.subrange(8, 24)[15] == b[23]);
}

proof fn lemma_video_fields(b: Seq<u8>, s: Saved)
    requires
        s.wf(),
        b.len() >= 80,
        b.subrange(24, 80) == video_part(s),
    ensures
        read16(b, 24) == s.scanline_in_frame,
        read16(b, 26) == s.cycle_in_scanline,
        b.subrange(28, 46) == s.crtc_regs,
        b[46] == s.ula_control && b[47] == s.screen_size_code,
        b.subrange(48, 64) == s.palette,
        b[64] == s.ic32,
        b.subrange(65, 75) == s.keys,
{
    let v = video_part(s);
    assert(v.len() == 56);
    assert(b.subrange(24, 80)[0] == b[24]);
    assert(b.subrange(24, 80)[1] == b[25]);
    assert(b.subrange(24, 80)[2] == b[26]);
    assert(b.subrange(24, 80)[3] == b[27]);
    assert(b.subrange(24, 80)[22] == b[46]);
    assert(b.subrange(24, 80)[23] == b[47]);
    assert(b.subrange(24, 80)[40] == b[64]);
    assert(b.subrange(28, 46) =~= v.subrange(4, 22));
    assert(v.subrange(4, 22) =~= s.crtc_regs);
    assert(b.subrange(48, 64) =~= v.subrange(24, 40));
    assert(v.subrange(24, 40) =~= s.palette);
    assert(b.subrange(65, 75) =~= v.subrange(41, 51));
    assert(v.subrange(41, 51) =~= s.keys);
}

proof fn lemma_device_fields(b: Seq<u8>, s: Saved)
    requires
        s.wf(),
        b.len() >= 116,
        b.subrange(80, 116) == device_part(s),
    ensures
        forall|c: int| 0 <= c < 4 ==> #[trigger] read16(b, 80 + 2 * c) == s.periods[c],
        forall|c: int| 0 <= c < 4 ==> #[trigger] b[88 + c] == s.attenuations[c],
        b[92] == s.noise_ctrl,
        b[112] == s.tracks[0] && b[113] == s.tracks[1] && b[114] == s.cur_drive && b[115] == s.side,
{
    let d = device_part(s);
    assert(d.len() == 36);
    assert forall|k: int| 0 <= k < 36 implies #[trigger] b[80 + k] == d[k] by {
        assert(b.subrange(80, 116)[k] == b[80 + k]);
    }
    assert(b[80] == d[0] && b[81] == d[1] && b[82] == d[2] && b[83] == d[3]);
    assert(b[84] == d[4] && b[85] == d[5] && b[86] == d[6] && b[87] == d[7]);
    assert(b[88] == d[8] && b[89] == d[9] && b[90] == d[10] && b[91] == d[11]);
    assert(b[92] == d[12]);
    assert(b[112] == d[32] && b[113] == d[33] && b[114] == d[34] && b[115] == d[35]);
}

/// Loading a snapshot restores exactly the state it was taken from.
pub proof fn lemma_snapshot_round_trip(s: Saved)
    requires
        s.wf(),
    ensures
        image(s).len() == SNAPSHOT_LEN,
        has_magic(image(s)),
        image(s)[4] == VERSION,
        parsed(image(s)) == s,
{
    let b = image(s);
    assert(b.len() == SNAPSHOT_LEN);
    assert(b.subrange(0, 8) =~= id_part(s));
    assert(b.subrange(8, 24) =~= cpu_part(s));
    assert(b.subrange(24, 80) =~= video_part(s));
    assert(b.subrange(80, 116) =~= device_part(s));
    assert(b.subrange(116, 32884) =~= s.ram);
    assert(b.subrange(0, 8)[5] == b[5]);
    lemma_cpu_fields(b, s);
    lemma_video_fields(b, s);
    lemma_device_fields(b, s);
    let p = parsed(b);
    assert(p.periods =~= s.periods);
    assert(p.attenuations =~= s.attenuations);
    assert(p.tracks =~= s.tracks);
}

fn id_bytes(m: &Machine) -> (buf: Vec<u8>)
    requires
        m.wf(),
    ensures
        buf@ == id_part(saved(m)),
{
    let mut buf: Vec<u8> = Vec::new();
    buf.push(MAGIC[0]);
    buf.push(MAGIC[1]);
    buf.push(MAGIC[2]);
    buf.push(MAGIC[3]);
    buf.push(VERSION);
    buf.push(m.bus.memory.selected_bank());
    buf.push(0);
    buf.push(0);
    assert(buf@ =~= id_part(saved(m)));
    buf
}

/// Decoding the snapshot `encode` makes of a machine gives back exactly the
/// state it recorded: the bytes pass every check, and `parsed` of them is
/// `saved` of the machine.
pub proof fn lemma_machine_snapshot_round_trip(m: &Machine)
    requires
        m.wf(),
        m.bus.hardware.fdc@.side < 2,
    ensures
        image(saved(m)).len() == SNAPSHOT_LEN,
        has_magic(image(saved(m))),
        image(saved(m))[4] == VERSION,
        parsed(image(saved(m))) == saved(m),
{
    lemma_saved_wf(m);
    lemma_snapshot_round_trip(saved(m));
}

fn push_cpu_part(buf: &mut Vec<u8>, m: &Machine)
    ensures
        final(buf)@ == old(buf)@ + cpu_part(saved(m)),
{
    let ghost start = buf@;
    let r = m.cpu.registers;
    push_le64(buf, m.cpu.cycles);
    let ghost mid = buf@;
    buf.push(r.a);
    buf.push(r.x);
    buf.push(r.y);
    buf.push(r.sp);
    buf.push(r.status);
    buf.push(0);
    assert(buf@ =~= mid + seq![r.a, r.x, r.y, r.sp, r.status, 0u8]);
    push_le16(buf, r.pc);
    assert(buf@ =~= start + cpu_part(saved(m)));
}

fn push_video_part(buf: &mut Vec<u8>, m: &Machine)
    ensures
        final(buf)@ == old(buf)@ + video_part(saved(m)),
{
    let ghost start = buf@;
    let hw = &m.bus.hardware;
    push_le16(buf, hw.crtc.scanline_in_frame);
    push_le16(buf, hw.crtc.cycle_in_scanline);
    push_bytes(buf, &hw.crtc.regs);
    let ghost mid = buf@;
    buf.push(hw.video_ula.control);
    buf.push(hw.video_ula.screen_size_code);
    assert(buf@ =~= mid + seq![hw.video_ula.control, hw.video_ula.screen_size_code]);
    push_bytes(buf, &hw.video_ula.palette);
    let ghost mid2 = buf@;
    buf.push(hw.system_via.ic32);
    assert(buf@ =~= mid2 + seq![hw.system_via.ic32]);
    push_bytes(buf, &hw.system_via.keys);
    push_zeros(buf, 5);
    assert(buf@ =~= start + video_part(saved(m)));
}

fn push_device_part(buf: &mut Vec<u8>, m: &Machine)
    requires
        m.wf(),
    ensures
        final(buf)@ == old(buf)@ + device_part(saved(m)),
{
    let ghost start = buf@;
    let hw = &m.bus.hardware;
    let ghost s = saved(m);
    push_le16(buf, hw.sound.channel_period(0));
    push_le16(buf, hw.sound.channel_period(1));
    push_le16(buf, hw.sound.channel_period(2));
    push_le16(buf, hw.sound.channel_period(3));
    let ghost mid = buf@;
    buf.push(hw.sound.channel_attenuation(0));
    buf.push(hw.sound.channel_attenuation(1));
    buf.push(hw.sound.channel_attenuation(2));
    buf.push(hw.sound.channel_attenuation(3));
    assert(buf@ =~= mid + s.attenuations);
    let ghost mid2 = buf@;
    buf.push(hw.sound.noise_ctrl_byte());
    assert(buf@ =~= mid2 + seq![s.noise_ctrl]);
    push_zeros(buf, 19);
    let ghost mid3 = buf@;
    buf.push(hw.fdc.drive_track(0));
    buf.push(hw.fdc.drive_track(1));
    buf.push(hw.fdc.cur_drive_index() as u8);
    buf.push(hw.fdc.side_index());
    assert(buf@ =~= mid3 + seq![s.tracks[0], s.tracks[1], s.cur_drive, s.side]);
    assert(buf@ =~= start + device_part(s));
}

/// The snapshot of `machine`.
pub fn encode(machine: &Machine) -> (buf: Vec<u8>)
    requires
        machine.wf(),
    ensures
        buf@ == image(saved(machine)),
        buf@.len() == SNAPSHOT_LEN,
{
    proof {
        Memory::lemma_wf(machine.bus.memory);
    }
    let mut buf = id_bytes(machine);
    push_cpu_part(&mut buf, machine);
    push_video_part(&mut buf, machine);
    push_device_part(&mut buf, machine);
    push_bytes(&mut buf, machine.bus.memory.ram());
    buf
}

fn read16_at(buf: &[u8], off: usize) -> (v: u16)
    requires
        off + 1 < buf@.len(),
    ensures
        v == read16(buf@, off as int),
{
    buf[off] as u16 + 256 * buf[off + 1] as u16
}

fn read64_at(buf: &[u8], off: usize) -> (v: u64)
    requires
        off + 7 < buf@.len(),
    ensures
        v == read64(buf@, off as int),
{
    (buf[off] as u64) | ((buf[off + 1] as u64) << 8) | ((buf[off + 2] as u64) << 16) | ((buf[off
        + 3] as u64) << 24) | ((buf[off + 4] as u64) << 32) | ((buf[off + 5] as u64) << 40) | ((
    buf[off + 6] as u64) << 48) | ((buf[off + 7] as u64) << 56)
}

fn decode_cpu(cpu: &mut CpuState, buf: &[u8])
    requires
        buf@.len() == SNAPSHOT_LEN,
    ensures
        ({
            let p = parsed(buf@);
            *final(cpu) == (CpuState {
                registers: Registers {
                    a: p.a,
                    x: p.x,
                    y: p.y,
                    sp: p.sp,
                    status: p.status,
                    pc: p.pc,
                },
                cycles: p.cycles,
            })
        }),
{
    cpu.cycles = read64_at(buf, 8);
    cpu.registers.a = buf[16];
    cpu.registers.x = buf[17];
    cpu.registers.y = buf[18];
    cpu.registers.sp = buf[19];
    cpu.registers.status = buf[20];
    cpu.registers.pc = read16_at(buf, 22);
}

fn copy_into(dst: &mut [u8], buf: &[u8], off: usize)
    requires
        off + old(dst)@.len() <= buf@.len(),
        buf@.len() == SNAPSHOT_LEN,
    ensures
        final(dst)@ == buf@.subrange(off as int, off + old(dst)@.len()),
{
    let n = dst.len();
    let mut i: usize = 0;
    while i < n
        invariant
            i <= n,
            n == dst@.len(),
            n == old(dst)@.len(),
            off + n <= buf@.len(),
            buf@.len() == SNAPSHOT_LEN,
            forall|k: int| 0 <= k < i ==> #[trigger] dst@[k] == buf@[off + k],
        decreases n - i,
    {
        dst[i] = buf[off + i];
        i = i + 1;
    }
    assert(dst@ =~= buf@.subrange(off as int, off + n));
}

fn decode_video(hw: &mut Hardware, buf: &[u8])
    requires
        buf@.len() == SNAPSHOT_LEN,
    ensures
        ({
            let p = parsed(buf@);
            &&& final(hw).crtc == (Crtc6845 {
                scanline_in_frame: p.scanline_in_frame,
                cycle_in_scanline: p.cycle_in_scanline,
                regs: final(hw).crtc.regs,
                ..old(hw).crtc
            })
            &&& final(hw).crtc.regs@ == p.crtc_regs
            &&& final(hw).video_ula.control == p.ula_control
            &&& final(hw).video_ula.screen_size_code == p.screen_size_code
            &&& final(hw).video_ula.palette@ == p.palette
            &&& final(hw).system_via == (SystemVia {
                ic32: p.ic32,
                keys: final(hw).system_via.keys,
                ..old(hw).system_via
            })
            &&& final(hw).system_via.keys@ == p.keys
            &&& *final(hw) == (Hardware {
                crtc: final(hw).crtc,
                video_ula: final(hw).video_ula,
                system_via: final(hw).system_via,
                ..*old(hw)
            })
        }),
{
    hw.crtc.scanline_in_frame = read16_at(buf, 24);
    hw.crtc.cycle_in_scanline = read16_at(buf, 26);
    copy_into(&mut hw.crtc.regs, buf, 28);
    hw.video_ula.control = buf[46];
    hw.video_ula.screen_size_code = buf[47];
    copy_into(&mut hw.video_ula.palette, buf, 48);
    hw.system_via.ic32 = buf[64];
    copy_into(&mut hw.system_via.keys, buf, 65);
}

fn decode_devices(hw: &mut Hardware, buf: &[u8])
    requires
        buf@.len() == SNAPSHOT_LEN,
        old(hw).wf(),
    ensures
        final(hw).wf(),
        ({
            let p = parsed(buf@);
            let old_fdc = old(hw).fdc@;
            &&& forall|c: int|
                0 <= c < 4 ==> #[trigger] final(hw).sound.channels@[c] == (Channel {
                    period: p.periods[c],
                    attenuation: p.attenuations[c],
                    ..old(hw).sound.channels@[c]
                })
            &&& final(hw).sound.noise_ctrl == p.noise_ctrl
            &&& final(hw).sound.latched_reg == old(hw).sound.latched_reg
            &&& final(hw).sound.noise_lfsr == old(hw).sound.noise_lfsr
            &&& final(hw).fdc@ == (FdcState {
                drives: seq![
                    DriveState { track: p.tracks[0], ..old_fdc.drives[0] },
                    DriveState { track: p.tracks[1], ..old_fdc.drives[1] },
                ],
                cur_drive: loaded_drive(p.cur_drive, old_fdc.cur_drive),
                side: p.side,
                ..old_fdc
            })
            &&& *final(hw) == (Hardware {
                sound: final(hw).sound,
                fdc: final(hw).fdc,
                ..*old(hw)
            })
        }),
{
    let mut c: usize = 0;
    while c < 4
        invariant
            c <= 4,
            buf@.len() == SNAPSHOT_LEN,
            hw.sound.wf(),
            hw.fdc == old(hw).fdc,
            *hw == (Hardware { sound: hw.sound, ..*old(hw) }),
            hw.sound.latched_reg == old(hw).sound.latched_reg,
            hw.sound.noise_lfsr == old(hw).sound.noise_lfsr,
            hw.sound.noise_ctrl == old(hw).sound.noise_ctrl,
            forall|k: int|
                0 <= k < 4 ==> #[trigger] hw.sound.channels@[k] == if k < c {
                    Channel {
                        period: parsed(buf@).periods[k],
                        attenuation: parsed(buf@).attenuations[k],
                        ..old(hw).sound.channels@[k]
                    }
                } else {
                    old(hw).sound.channels@[k]
                },
        decreases 4 - c,
    {
        let period = read16_at(buf, 80 + 2 * c);
        let att = buf[88 + c] % 16;
        hw.sound.set_channel_period(c, period);
        hw.sound.set_channel_attenuation(c, att);
        c = c + 1;
    }
    hw.sound.set_noise_ctrl_byte(buf[92]);
    hw.fdc.set_drive_track(0, buf[112]);
    hw.fdc.set_drive_track(1, buf[113]);
    hw.fdc.set_cur_drive(buf[114] as usize);
    hw.fdc.set_side(buf[115]);
    proof {
        let p = parsed(buf@);
        let old_fdc = old(hw).fdc@;
        assert(hw.fdc@.drives =~= seq![
            DriveState { track: p.tracks[0], ..old_fdc.drives[0] },
            DriveState { track: p.tracks[1], ..old_fdc.drives[1] },
        ]);
    }
}

fn decode_ram(memory: &mut Memory, buf: &[u8])
    requires
        old(memory).wf(),
        buf@.len() == SNAPSHOT_LEN,
    ensures
        final(memory).wf(),
        final(memory)@ == (MemoryState { ram: buf@.subrange(116, 32884), ..old(memory)@ }),
{
    proof {
        Memory::lemma_wf(*memory);
    }
    let mut i: usize = 0;
    while i < RAM_SIZE
        invariant
            i <= RAM_SIZE,
            buf@.len() == SNAPSHOT_LEN,
            memory.wf(),
            memory@.wf(),
            memory@ == (MemoryState { ram: memory@.ram, ..old(memory)@ }),
            forall|k: int|
                0 <= k < RAM_SIZE ==> #[trigger] memory@.ram[k] == if k < i {
                    buf@[116 + k]
                } else {
                    old(memory)@.ram[k]
                },
        decreases RAM_SIZE - i,
    {
        memory.write(i as u16, buf[RAM_OFFSET + i]);
        proof {
            Memory::lemma_wf(*memory);
        }
        i = i + 1;
    }
    assert(memory@.ram =~= buf@.subrange(116, 32884));
}

/// Load a snapshot into `machine`. A buffer shorter than a snapshot, or one
/// without the magic or with another version, is refused and the machine
/// left as it was (checked in that order).
pub fn decode(machine: &mut Machine, buf: &[u8]) -> (r: Result<(), SnapshotError>)
    requires
        old(machine).wf(),
        buf@.len() <= SNAPSHOT_LEN,
    ensures
        final(machine).wf(),
        buf@.len() < SNAPSHOT_LEN ==> (r matches Err(SnapshotError::WrongSize { expected, actual })
            && expected == SNAPSHOT_LEN && actual == buf@.len()),
        buf@.len() == SNAPSHOT_LEN && !has_magic(buf@) ==> r matches Err(SnapshotError::BadMagic),
        buf@.len() == SNAPSHOT_LEN && has_magic(buf@) && buf@[4] != VERSION ==> (r matches Err(
            SnapshotError::BadVersion(v),
        ) && v == buf@[4]),
        r is Err ==> *final(machine) == *old(machine),
        r is Ok <==> buf@.len() == SNAPSHOT_LEN && has_magic(buf@) && buf@[4] == VERSION,
        r is Ok ==> ({
            let p = parsed(buf@);
            let old_hw = old(machine).bus.hardware;
            let hw = final(machine).bus.hardware;
            &&& saved(final(machine)) == (Saved {
                cur_drive: loaded_drive(p.cur_drive, old_hw.fdc@.cur_drive) as u8,
                ..p
            })
            &&& final(machine).bus.memory@ == (MemoryState {
                ram: p.ram,
                selected_bank: p.selected_bank,
                ..old(machine).bus.memory@
            })
            &&& hw.crtc == (Crtc6845 {
                scanline_in_frame: p.scanline_in_frame,
                cycle_in_scanline: p.cycle_in_scanline,
                regs: hw.crtc.regs,
                ..old_hw.crtc
            })
            &&& hw.system_via == (SystemVia { ic32: p.ic32, keys: hw.system_via.keys, ..old_hw.system_via })
            &&& forall|c: int|
                0 <= c < 4 ==> #[trigger] hw.sound.channels@[c] == (Channel {
                    period: p.periods[c],
                    attenuation: p.attenuations[c],
                    ..old_hw.sound.channels@[c]
                })
            &&& hw.sound.latched_reg == old_hw.sound.latched_reg
            &&& hw.sound.noise_lfsr == old_hw.sound.noise_lfsr
            &&& hw.fdc@ == (FdcState {
                drives: seq![
                    DriveState { track: p.tracks[0], ..old_hw.fdc@.drives[0] },
                    DriveState { track: p.tracks[1], ..old_hw.fdc@.drives[1] },
                ],
                cur_drive: loaded_drive(p.cur_drive, old_hw.fdc@.cur_drive),
                side: p.side,
                ..old_hw.fdc@
            })
            &&& hw == (Hardware {
                crtc: hw.crtc,
                video_ula: hw.video_ula,
                system_via: hw.system_via,
                sound: hw.sound,
                fdc: hw.fdc,
                ..old_hw
            })
            &&& final(machine).renderer == old(machine).renderer
            &&& final(machine).typed_chars == old(machine).typed_chars
            &&& final(machine).cycles_since_crtc_tick == old(machine).cycles_since_crtc_tick
            &&& final(machine).host_input_passthrough == old(machine).host_input_passthrough
        }),
{
    if buf.len() < SNAPSHOT_LEN {
        return Err(SnapshotError::WrongSize { expected: SNAPSHOT_LEN, actual: buf.len() });
    }
    if buf[0] != MAGIC[0] || buf[1] != MAGIC[1] || buf[2] != MAGIC[2] || buf[3] != MAGIC[3] {
        return Err(SnapshotError::BadMagic);
    }
    if buf[4] != VERSION {
        return Err(SnapshotError::BadVersion(buf[4]));
    }
    machine.bus.memory.select_bank(buf[5]);
    decode_cpu(&mut machine.cpu, buf);
    decode_video(&mut machine.bus.hardware, buf);
    decode_devices(&mut machine.bus.hardware, buf);
    decode_ram(&mut machine.bus.memory, buf);
    proof {
        Memory::lemma_wf(machine.bus.memory);
        let p = parsed(buf@);
        let s = saved(machine);
        assert(s.periods =~= p.periods);
        assert(s.attenuations =~= p.attenuations);
        assert(s.tracks =~= p.tracks);
    }
    Ok(())
}

} // verus!
