//! Intel 8271 floppy disc controller at $FE80-$FE87.
//!
//! ```text
//!   0  command (W) / status (R)
//!   1  parameter (W) / result (R)
//!   2  reset (W)
//!   4  data (R/W)
//! ```
//!
//! Commands: Specify (0x35), Read Drive Status (0x2C), Seek (0x29),
//! Read ID (0x1B), Read Data (0x12/0x13/0x16/0x17), Write Data
//! (0x0A/0x0B/0x0E/0x0F), Verify (0x1E/0x1F), Format Track (0x23),
//! Read / Write Special Register (0x3D / 0x3A).
//!
//! Data moves one byte per NMI: the chip latches a sector byte into the data
//! register and raises INT + NDDR; reading register 4 clears them and the
//! next byte follows after a delay. Images are SSD (single sided, 80 tracks
//! of 10 sectors of 256 bytes, possibly short) or DSD (double sided,
//! 400 KiB, the two sides interleaved track by track). The side latched in
//! the drive output register picks the side of a DSD.
use vstd::prelude::*;
use crate::text::{append_decimal, decimal};

pub mod result;
pub mod status;

verus! {

pub const SECTOR_SIZE: usize = 256;
pub const SECTORS_PER_TRACK: usize = 10;
pub const TRACKS_PER_DISK: usize = 80;
pub const SSD_SIZE: usize = 204800;
pub const DSD_SIZE: usize = 409600;

#[derive(Debug)]
pub enum FdcError {
    BadImageSize { actual: usize },
    SeekOutOfRange { track: u8 },
}

/// Text of the bad-image-size message.
pub open spec fn bad_size_text(actual: usize) -> Seq<char> {
    "disk image must be <= 204800 (SSD) or exactly 409600 (DSD) bytes; got "@ + decimal(
        actual as nat,
    )
}

/// Text of the bad-seek message.
pub open spec fn bad_seek_text(track: u8) -> Seq<char> {
    "seek to invalid track "@ + decimal(track as nat)
}

fn format_bad_size(actual: usize) -> (s: String)
    ensures
        s@ == bad_size_text(actual),
{
    let mut s = "disk image must be <= 204800 (SSD) or exactly 409600 (DSD) bytes; got ".to_owned();
    append_decimal(&mut s, actual as u64);
    s
}

fn format_bad_seek(track: u8) -> (s: String)
    ensures
        s@ == bad_seek_text(track),
{
    let mut s = "seek to invalid track ".to_owned();
    append_decimal(&mut s, track as u64);
    s
}

impl FdcError {
    /// Human-readable description.
    pub fn message(&self) -> (s: String)
        ensures
            s@ == match self {
                FdcError::BadImageSize { actual } => bad_size_text(*actual),
                FdcError::SeekOutOfRange { track } => bad_seek_text(*track),
            },
    {
        match self {
            FdcError::BadImageSize { actual } => format_bad_size(*actual),
            FdcError::SeekOutOfRange { track } => format_bad_seek(*track),
        }
    }
}

/// One floppy drive.
pub struct Drive {
    /// The disc image: a full SSD, or a DSD holding both sides.
    pub image: Option<Vec<u8>>,
    /// True when the image is a DSD.
    pub double_sided: bool,
    /// Track under the head.
    pub track: u8,
    pub write_protect: bool,
}

pub ghost struct DriveState {
    pub image: Option<Seq<u8>>,
    pub double_sided: bool,
    pub track: u8,
    pub write_protect: bool,
}

impl View for Drive {
    type V = DriveState;

    open spec fn view(&self) -> DriveState {
        DriveState {
            image: match self.image {
                Some(v) => Some(v@),
                None => None,
            },
            double_sided: self.double_sided,
            track: self.track,
            write_protect: self.write_protect,
        }
    }
}

impl DriveState {
    /// Byte offset of a sector in the image. A DSD interleaves the sides
    /// track by track: track 0 side 0, track 0 side 1, track 1 side 0, ...
    pub open spec fn sector_offset(self, side: u8, track: u8, sector: u8) -> Option<int> {
        if track >= 80 || sector >= 10 {
            None
        } else if self.double_sided {
            Some(((track * 2 + side) * 10 + sector) * 256)
        } else {
            Some((track * 10 + sector) * 256)
        }
    }

    /// The 256 bytes of a sector, when it lies inside the loaded image.
    pub open spec fn sector(self, side: u8, track: u8, sector: u8) -> Option<Seq<u8>> {
        match (self.sector_offset(side, track, sector), self.image) {
            (Some(off), Some(img)) => if off + 256 <= img.len() {
                Some(img.subrange(off, off + 256))
            } else {
                None
            },
            _ => None,
        }
    }

    /// Writing the first (up to 256) bytes of `data` into a sector; the
    /// flag says whether it happened (not write-protected, sector inside the
    /// loaded image).
    pub open spec fn write_sector(self, side: u8, track: u8, sector: u8, data: Seq<u8>) -> (
        DriveState,
        bool,
    ) {
        let n = if data.len() < 256 { data.len() as int } else { 256 };
        if self.write_protect {
            (self, false)
        } else {
            match (self.sector_offset(side, track, sector), self.image) {
                (Some(off), Some(img)) => if off + n <= img.len() {
                    (
                        DriveState {
                            image: Some(
                                img.subrange(0, off) + data.subrange(0, n) + img.subrange(
                                    off + n,
                                    img.len() as int,
                                ),
                            ),
                            ..self
                        },
                        true,
                    )
                } else {
                    (self, false)
                },
                _ => (self, false),
            }
        }
    }

    /// Writes zeroed sectors 0..n of a track.
    pub open spec fn zero_sectors(self, side: u8, track: u8, n: nat) -> DriveState
        decreases n,
    {
        if n == 0 {
            self
        } else {
            self.zero_sectors(side, track, (n - 1) as nat).write_sector(
                side,
                track,
                (n - 1) as u8,
                Seq::new(256, |i: int| 0u8),
            ).0
        }
    }
}

/// Writing a full sector and reading it back gives the written bytes, and
/// every other sector of the disc keeps its contents.
pub proof fn lemma_sector_write_read_back(
    d: DriveState,
    side: u8,
    track: u8,
    sector: u8,
    data: Seq<u8>,
    side2: u8,
    track2: u8,
    sector2: u8,
)
    requires
        data.len() == 256,
        d.write_sector(side, track, sector, data).1,
    ensures
        d.write_sector(side, track, sector, data).0.sector(side, track, sector) == Some(data),
        d.sector_offset(side2, track2, sector2) != d.sector_offset(side, track, sector) ==> d.write_sector(
            side,
            track,
            sector,
            data,
        ).0.sector(side2, track2, sector2) == d.sector(side2, track2, sector2),
{
    let off = d.sector_offset(side, track, sector).unwrap();
    let img = d.image.unwrap();
    let new_img = img.subrange(0, off) + data + img.subrange(off + 256, img.len() as int);
    assert(data.subrange(0, 256) =~= data);
    assert(new_img.subrange(off, off + 256) =~= data);
    match d.sector_offset(side2, track2, sector2) {
        Some(off2) => {
            if off2 != off && off2 + 256 <= img.len() {
                assert(off2 + 256 <= off || off + 256 <= off2);
                assert(new_img.subrange(off2, off2 + 256) =~= img.subrange(off2, off2 + 256));
            }
        },
        None => {},
    }
}

/// On a double-sided disc the two sides of a track hold different sectors.
pub proof fn lemma_dsd_sides_distinct(d: DriveState, track: u8, sector: u8)
    requires
        d.double_sided,
        track < 80,
        sector < 10,
    ensures
        d.sector_offset(0, track, sector) != d.sector_offset(1, track, sector),
{
}

impl Drive {
    pub fn loaded(&self) -> (b: bool)
        ensures
            b == self@.image is Some,
    {
        self.image.is_some()
    }

    pub fn sector_offset(&self, side: u8, track: u8, sector: u8) -> (o: Option<usize>)
        ensures
            match self@.sector_offset(side, track, sector) {
                Some(off) => o == Some(off as usize),
                None => o is None,
            },
    {
        if track as usize >= TRACKS_PER_DISK || sector as usize >= SECTORS_PER_TRACK {
            return None;
        }
        if self.double_sided {
            Some(((track as usize * 2 + side as usize) * SECTORS_PER_TRACK + sector as usize)
                * SECTOR_SIZE)
        } else {
            Some((track as usize * SECTORS_PER_TRACK + sector as usize) * SECTOR_SIZE)
        }
    }

    /// The bytes of a sector, if it lies inside the loaded image.
    pub fn read_sector(&self, side: u8, track: u8, sector: u8) -> (s: Option<&[u8]>)
        ensures
            match self@.sector(side, track, sector) {
                Some(bytes) => s is Some && s.unwrap()@ == bytes,
                None => s is None,
            },
    {
        let off = match self.sector_offset(side, track, sector) {
            Some(o) => o,
            None => return None,
        };
        match &self.image {
            Some(img) => {
                if off <= img.len() && SECTOR_SIZE <= img.len() - off {
                    let bytes = img.as_slice();
                    Some(&bytes[off..off + SECTOR_SIZE])
                } else {
                    None
                }
            },
            None => None,
        }
    }

    /// Write the first (up to 256) bytes of `data` into a sector; false when
    /// write-protected or the sector is not inside the loaded image.
    pub fn write_sector(&mut self, side: u8, track: u8, sector: u8, data: &[u8]) -> (ok: bool)
        ensures
            (final(self)@, ok) == old(self)@.write_sector(side, track, sector, data@),
    {
        if self.write_protect {
            return false;
        }
        let off = match self.sector_offset(side, track, sector) {
            Some(o) => o,
            None => return false,
        };
        let n = if data.len() < SECTOR_SIZE { data.len() } else { SECTOR_SIZE };
        let ghost d0 = self@;
        match &mut self.image {
            Some(img) => {
                if off > img.len() || n > img.len() - off {
                    return false;
                }
                let ghost old_img = img@;
                let mut i: usize = 0;
                while i < n
                    invariant
                        i <= n,
                        n <= data@.len(),
                        off + n <= old_img.len(),
                        off + n <= usize::MAX,
                        img@.len() == old_img.len(),
                        forall|j: int|
                            0 <= j < img@.len() ==> img@[j] == if off <= j < off + i {
                                data@[j - off]
                            } else {
                                old_img[j]
                            },
                    decreases n - i,
                {
                    img.set(off + i, data[i]);
                    i = i + 1;
                }
                assert(img@ =~= old_img.subrange(0, off as int) + data@.subrange(0, n as int)
                    + old_img.subrange(off + n, old_img.len() as int));
            },
            None => return false,
        }
        true
    }
}

/// What the controller is doing.
pub enum Phase {
    Idle,
    /// Awaiting `paramreq` parameter bytes.
    GatherParams { paramreq: u8 },
    /// Streaming a sector to the CPU, one byte per NMI.
    Reading {
        track: u8,
        sector: u8,
        side: u8,
        bytes_left: u32,
        offset: usize,
        sectors_left: u8,
    },
    /// Streaming a sector from the CPU, one byte per NMI.
    Writing {
        track: u8,
        sector: u8,
        side: u8,
        bytes_left: u32,
        offset: usize,
        sectors_left: u8,
        buffer: Vec<u8>,
    },
    /// The transfer is over; the completion interrupt follows.
    FinishingRead,
    /// Result in the result register, INT asserted.
    Complete,
}

pub ghost enum PhaseState {
    Idle,
    GatherParams { paramreq: u8 },
    Reading { track: u8, sector: u8, side: u8, bytes_left: u32, offset: usize, sectors_left: u8 },
    Writing {
        track: u8,
        sector: u8,
        side: u8,
        bytes_left: u32,
        offset: usize,
        sectors_left: u8,
        buffer: Seq<u8>,
    },
    FinishingRead,
    Complete,
}

impl View for Phase {
    type V = PhaseState;

    open spec fn view(&self) -> PhaseState {
        match self {
            Phase::Idle => PhaseState::Idle,
            Phase::GatherParams { paramreq } => PhaseState::GatherParams { paramreq: *paramreq },
            Phase::Reading { track, sector, side, bytes_left, offset, sectors_left } => {
                PhaseState::Reading {
                    track: *track,
                    sector: *sector,
                    side: *side,
                    bytes_left: *bytes_left,
                    offset: *offset,
                    sectors_left: *sectors_left,
                }
            },
            Phase::Writing { track, sector, side, bytes_left, offset, sectors_left, buffer } => {
                PhaseState::Writing {
                    track: *track,
                    sector: *sector,
                    side: *side,
                    bytes_left: *bytes_left,
                    offset: *offset,
                    sectors_left: *sectors_left,
                    buffer: buffer@,
                }
            },
            Phase::FinishingRead => PhaseState::FinishingRead,
            Phase::Complete => PhaseState::Complete,
        }
    }
}

pub struct Fdc8271 {
    pub status: u8,
    pub result: u8,
    pub data: u8,
    pub command: u8,
    pub params: [u8; 5],
    pub paramnum: u8,
    pub paramreq: u8,
    /// CPU cycles until the next phase step.
    pub delay: u32,
    pub drives: [Drive; 2],
    pub cur_drive: usize,
    /// Selected side of a DSD image.
    pub side: u8,
    pub phase: Phase,
    /// Special registers; $23 is the drive-output latch (select, side, load
    /// head).
    pub special: [u8; 64],
    /// NMI edge waiting to be delivered.
    pub nmi_pending: bool,
    pub step_rate: u8,
    pub head_settle: u8,
    pub head_load: u8,
    /// Position within a 400 000-cycle disc revolution (300 rpm at 2 MHz).
    pub rotation_cycle: u32,
    /// Cycles until a newly selected drive reports ready.
    pub spin_up_remaining: u32,
}

pub ghost struct FdcState {
    pub status: u8,
    pub result: u8,
    pub data: u8,
    pub command: u8,
    pub params: Seq<u8>,
    pub paramnum: u8,
    pub paramreq: u8,
    pub delay: u32,
    pub drives: Seq<DriveState>,
    pub cur_drive: usize,
    pub side: u8,
    pub phase: PhaseState,
    pub special: Seq<u8>,
    pub nmi_pending: bool,
    pub step_rate: u8,
    pub head_settle: u8,
    pub head_load: u8,
    pub rotation_cycle: u32,
    pub spin_up_remaining: u32,
}

impl View for Fdc8271 {
    type V = FdcState;

    open spec fn view(&self) -> FdcState {
        FdcState {
            status: self.status,
            result: self.result,
            data: self.data,
            command: self.command,
            params: self.params@,
            paramnum: self.paramnum,
            paramreq: self.paramreq,
            delay: self.delay,
            drives: seq![self.drives@[0]@, self.drives@[1]@],
            cur_drive: self.cur_drive,
            side: self.side,
            phase: self.phase@,
            special: self.special@,
            nmi_pending: self.nmi_pending,
            step_rate: self.step_rate,
            head_settle: self.head_settle,
            head_load: self.head_load,
            rotation_cycle: self.rotation_cycle,
            spin_up_remaining: self.spin_up_remaining,
        }
    }
}

/// Number of parameter bytes a command takes.
pub open spec fn param_count(cmd: u8) -> u8 {
    if cmd == 0x2C {
        0
    } else if cmd == 0x29 || cmd == 0x3D {
        1
    } else if cmd == 0x0A || cmd == 0x0E || cmd == 0x12 || cmd == 0x16 || cmd == 0x1E || cmd
        == 0x3A {
        2
    } else if cmd == 0x0B || cmd == 0x0F || cmd == 0x13 || cmd == 0x17 || cmd == 0x1F || cmd
        == 0x1B {
        3
    } else if cmd == 0x35 {
        4
    } else if cmd == 0x00 || cmd == 0x04 || cmd == 0x23 {
        5
    } else {
        0
    }
}

/// Status while a byte waits in the data register.
pub open spec fn transfer_status() -> u8 {
    status::BUSY | status::NDDR | status::INTERRUPT
}

impl FdcState {
    pub open spec fn cur(self) -> DriveState {
        self.drives[self.cur_drive as int]
    }

    pub open spec fn with_cur(self, d: DriveState) -> Self {
        FdcState { drives: self.drives.update(self.cur_drive as int, d), ..self }
    }

    /// Raise INT (an NMI edge if it was low) and assert a byte transfer.
    pub open spec fn byte_ready(self) -> Self {
        FdcState {
            status: transfer_status(),
            nmi_pending: self.nmi_pending || self.status & status::INTERRUPT == 0,
            ..self
        }
    }

    /// Finish the command with result `code`: result register full, INT
    /// raised (an NMI edge if it was low).
    pub open spec fn complete(self, code: u8) -> Self {
        FdcState {
            result: code,
            status: status::RESULT_FULL | status::INTERRUPT,
            nmi_pending: self.nmi_pending || self.status & status::INTERRUPT == 0,
            phase: PhaseState::Complete,
            delay: 0,
            ..self
        }
    }

    /// The value a read of register `reg` returns.
    pub open spec fn read_value(self, reg: u8) -> u8 {
        let r = reg % 8;
        if r == 0 {
            self.status
        } else if r == 1 {
            self.result
        } else if r == 4 || r == 5 {
            self.data
        } else {
            0
        }
    }

    /// Reading the result clears RESULT_FULL and INT; reading the data
    /// register clears NDDR and INT.
    pub open spec fn after_read(self, reg: u8) -> Self {
        let r = reg % 8;
        if r == 1 {
            FdcState { status: self.status & !(status::RESULT_FULL | status::INTERRUPT), ..self }
        } else if r == 4 || r == 5 {
            FdcState { status: self.status & !(status::NDDR | status::INTERRUPT), ..self }
        } else {
            self
        }
    }

    /// Read Drive Status: sentinels in bits 7 and 0; RDY0 / RDY1 while that
    /// drive holds a disc, is selected with its head loaded in the drive
    /// output latch ($23) and has spun up (until the latch selects a drive,
    /// the current drive counts as selected); TRK0 and INDEX while a drive
    /// is ready; WR_PROT of the current drive.
    pub open spec fn read_drive_status(self) -> Self {
        let drive_out = self.special[0x23];
        let stable = self.spin_up_remaining == 0;
        let load = drive_out & 0x08 != 0;
        let unset = drive_out & 0xC0 == 0;
        let sp0 = ((drive_out & 0x40 != 0 && load) || (unset && self.cur_drive == 0))
            && self.drives[0].image is Some && stable;
        let sp1 = ((drive_out & 0x80 != 0 && load) || (unset && self.cur_drive == 1))
            && self.drives[1].image is Some && stable;
        let wp: u8 = if self.cur().write_protect { 0x08 } else { 0 };
        let rdy0: u8 = if sp0 { 0x04 } else { 0 };
        let rdy1: u8 = if sp1 { 0x40 } else { 0 };
        let trk0: u8 = if (sp0 || sp1) && self.cur().track == 0 { 0x02 } else { 0 };
        let index: u8 = if (sp0 || sp1) && self.rotation_cycle < 40_000 { 0x10 } else { 0 };
        FdcState {
            result: 0x81u8 | wp | rdy0 | rdy1 | trk0 | index,
            status: status::RESULT_FULL,
            phase: PhaseState::Idle,
            ..self
        }
    }

    pub open spec fn seek(self) -> Self {
        let target = self.params[0];
        if target >= 80 {
            self.complete(result::SECTOR_NOT_FOUND)
        } else {
            self.with_cur(DriveState { track: target, ..self.cur() }).complete(result::OK)
        }
    }

    pub open spec fn specify(self) -> Self {
        let p = self.params;
        let s = if p[0] == 0x0D {
            FdcState { step_rate: p[1], head_settle: p[2], head_load: p[3], ..self }
        } else if p[0] == 0x10 {
            FdcState {
                special: self.special.update(0, p[1]).update(1, p[2]).update(2, p[3]).update(
                    3,
                    p[4],
                ),
                ..self
            }
        } else if p[0] == 0x18 {
            FdcState {
                special: self.special.update(10, p[1]).update(11, p[2]).update(12, p[3]).update(
                    13,
                    p[4],
                ),
                ..self
            }
        } else {
            self
        };
        s.complete(result::OK)
    }

    pub open spec fn read_special(self) -> Self {
        FdcState {
            result: self.special[(self.params[0] % 64) as int],
            status: status::RESULT_FULL,
            phase: PhaseState::Idle,
            ..self
        }
    }

    /// Write Special Register; register $23 also selects the drive and side
    /// and starts the spin-up delay when the drive starts turning.
    pub open spec fn write_special(self) -> Self {
        let idx = self.params[0] % 64;
        let val = self.params[1];
        let s = if idx == 0x23 {
            let prev = self.special[0x23];
            let was_spinning = prev & 0xC0 != 0 && prev & 0x08 != 0;
            let now_spinning = val & 0xC0 != 0 && val & 0x08 != 0;
            let sel = val & 0xC0;
            FdcState {
                cur_drive: if sel == 0x40 {
                    0
                } else if sel == 0x80 {
                    1
                } else {
                    self.cur_drive
                },
                side: if val & 0x20 != 0 { 1 } else { 0 },
                spin_up_remaining: if now_spinning && !was_spinning {
                    1_000
                } else {
                    self.spin_up_remaining
                },
                ..self
            }
        } else {
            self
        };
        FdcState { special: s.special.update(idx as int, val), ..s }.complete(result::OK)
    }

    /// Read ID: the current track number in the data register.
    pub open spec fn read_id(self) -> Self {
        let track = self.cur().track;
        if track >= 80 {
            self.complete(result::SECTOR_NOT_FOUND)
        } else {
            FdcState {
                data: track,
                status: status::RESULT_FULL | status::NDDR,
                nmi_pending: true,
                ..self
            }.complete(result::OK)
        }
    }

    pub open spec fn read_data(self) -> Self {
        let track = self.params[0];
        let sector = self.params[1];
        let count = if self.params[2] % 32 == 0 { 1 } else { self.params[2] % 32 };
        if track >= 80 || sector >= 10 {
            self.complete(result::SECTOR_NOT_FOUND)
        } else {
            FdcState {
                phase: PhaseState::Reading {
                    track,
                    sector,
                    side: self.side,
                    bytes_left: 256,
                    offset: 0,
                    sectors_left: count,
                },
                delay: 8_000,
                ..self.with_cur(DriveState { track, ..self.cur() })
            }
        }
    }

    pub open spec fn write_data(self) -> Self {
        let track = self.params[0];
        let sector = self.params[1];
        let count = if self.params[2] % 32 == 0 { 1 } else { self.params[2] % 32 };
        if track >= 80 || sector >= 10 {
            self.complete(result::SECTOR_NOT_FOUND)
        } else if self.cur().write_protect {
            self.complete(result::WRITE_PROTECTED)
        } else {
            FdcState {
                phase: PhaseState::Writing {
                    track,
                    sector,
                    side: self.side,
                    bytes_left: 256,
                    offset: 0,
                    sectors_left: count,
                    buffer: Seq::empty(),
                },
                status: status::BUSY,
                delay: 200,
                ..self.with_cur(DriveState { track, ..self.cur() })
            }
        }
    }

    /// Verify: every existing sector verifies (images carry no CRCs).
    pub open spec fn verify_data(self) -> Self {
        if self.params[0] >= 80 || self.params[1] >= 10 {
            self.complete(result::SECTOR_NOT_FOUND)
        } else {
            self.complete(result::OK)
        }
    }

    /// Format: zero every sector of the track on the current side.
    pub open spec fn format_track(self) -> Self {
        let track = self.params[0];
        if track >= 80 {
            self.complete(result::SECTOR_NOT_FOUND)
        } else {
            self.with_cur(self.cur().zero_sectors(self.side, track, 10)).complete(result::OK)
        }
    }

    pub open spec fn execute(self) -> Self {
        let c = self.command;
        if c == 0x2C {
            self.read_drive_status()
        } else if c == 0x29 {
            self.seek()
        } else if c == 0x35 {
            self.specify()
        } else if c == 0x3D {
            self.read_special()
        } else if c == 0x3A {
            self.write_special()
        } else if c == 0x1B {
            self.read_id()
        } else if c == 0x12 || c == 0x13 || c == 0x16 || c == 0x17 {
            self.read_data()
        } else if c == 0x0A || c == 0x0B || c == 0x0E || c == 0x0F {
            self.write_data()
        } else if c == 0x1E || c == 0x1F {
            self.verify_data()
        } else if c == 0x23 {
            self.format_track()
        } else {
            self.complete(result::SECTOR_NOT_FOUND)
        }
    }

    /// A command byte: ignored while busy; bit 7 selects the drive, bits
    /// 5-0 the command, which runs once its parameters have arrived.
    pub open spec fn command_written(self, value: u8) -> Self {
        if self.status & status::BUSY != 0 {
            self
        } else {
            let cmd = value % 64;
            let s = FdcState {
                cur_drive: if value >= 0x80 { 1 } else { 0 },
                command: cmd,
                paramnum: 0,
                status: status::BUSY,
                paramreq: param_count(cmd),
                ..self
            };
            if param_count(cmd) == 0 {
                s.execute()
            } else {
                FdcState { phase: PhaseState::GatherParams { paramreq: param_count(cmd) }, ..s }
            }
        }
    }

    /// A parameter byte, accepted while gathering parameters.
    pub open spec fn parameter_written(self, value: u8) -> Self {
        if self.phase is GatherParams {
            let s = if self.paramnum < 5 {
                FdcState {
                    params: self.params.update(self.paramnum as int, value),
                    paramnum: (self.paramnum + 1) as u8,
                    ..self
                }
            } else {
                self
            };
            if s.paramnum >= s.paramreq {
                s.execute()
            } else {
                s
            }
        } else {
            self
        }
    }

    /// Chip reset: everything but the drives, selection, special registers
    /// and timing parameters cleared.
    pub open spec fn reset(self) -> Self {
        FdcState {
            status: 0,
            result: 0,
            command: 0,
            paramnum: 0,
            paramreq: 0,
            delay: 0,
            phase: PhaseState::Idle,
            nmi_pending: false,
            ..self
        }
    }

    pub open spec fn after_write(self, reg: u8, value: u8) -> Self {
        let r = reg % 8;
        if r == 0 {
            self.command_written(value)
        } else if r == 1 {
            self.parameter_written(value)
        } else if r == 2 {
            self.reset()
        } else if r == 4 || r == 5 {
            FdcState {
                data: value,
                status: self.status & !(status::NDDR | status::INTERRUPT),
                ..self
            }
        } else {
            self
        }
    }

    /// Deliver the next byte of a sector being read (or wait while the CPU
    /// has not taken the previous one).
    pub open spec fn reading_step(
        self,
        track: u8,
        sector: u8,
        side: u8,
        bytes_left: u32,
        offset: usize,
        sectors_left: u8,
    ) -> Self {
        let waiting = PhaseState::Reading { track, sector, side, bytes_left, offset, sectors_left };
        if self.status & status::NDDR != 0 {
            FdcState { phase: waiting, delay: 16, ..self }
        } else {
            match self.cur().sector(side, track, sector) {
                None => self.complete(result::SECTOR_NOT_FOUND),
                Some(bytes) => {
                    let left: u32 = if bytes_left > 0 { (bytes_left - 1) as u32 } else { 0 };
                    let s = FdcState {
                        data: if offset < 256 { bytes[offset as int] } else { 0 },
                        ..self
                    }.byte_ready();
                    if left == 0 {
                        if sectors_left > 1 {
                            FdcState {
                                phase: PhaseState::Reading {
                                    track,
                                    sector: ((sector + 1) % 256) as u8,
                                    side,
                                    bytes_left: 256,
                                    offset: 0,
                                    sectors_left: (sectors_left - 1) as u8,
                                },
                                delay: 200,
                                ..s
                            }
                        } else {
                            FdcState { phase: PhaseState::FinishingRead, delay: 200, ..s }
                        }
                    } else {
                        FdcState {
                            phase: PhaseState::Reading {
                                track,
                                sector,
                                side,
                                bytes_left: left,
                                offset: (offset + 1) as usize,
                                sectors_left,
                            },
                            delay: 128,
                            ..s
                        }
                    }
                },
            }
        }
    }

    /// Take the byte the CPU deposited (after first requesting one); a full
    /// sector is committed to the image.
    pub open spec fn writing_step(
        self,
        track: u8,
        sector: u8,
        side: u8,
        bytes_left: u32,
        offset: usize,
        sectors_left: u8,
        buffer: Seq<u8>,
    ) -> Self {
        if bytes_left == 256 {
            FdcState {
                phase: PhaseState::Writing {
                    track,
                    sector,
                    side,
                    bytes_left: 255,
                    offset,
                    sectors_left,
                    buffer,
                },
                delay: 128,
                ..self.byte_ready()
            }
        } else {
            let buf = buffer.push(self.data);
            let new_left: u32 = if bytes_left > 0 { (bytes_left - 1) as u32 } else { 0 };
            if new_left == 0 && buf.len() == 256 {
                let (d, ok) = self.cur().write_sector(side, track, sector, buf);
                if !ok {
                    self.complete(result::WRITE_PROTECTED)
                } else if sectors_left > 1 {
                    FdcState {
                        phase: PhaseState::Writing {
                            track,
                            sector: ((sector + 1) % 256) as u8,
                            side,
                            bytes_left: 256,
                            offset: 0,
                            sectors_left: (sectors_left - 1) as u8,
                            buffer: Seq::empty(),
                        },
                        delay: 200,
                        ..self.with_cur(d)
                    }
                } else {
                    FdcState { phase: PhaseState::FinishingRead, delay: 200, ..self.with_cur(d) }
                }
            } else {
                FdcState {
                    phase: PhaseState::Writing {
                        track,
                        sector,
                        side,
                        bytes_left: new_left,
                        offset: (offset + 1) as usize,
                        sectors_left,
                        buffer: buf,
                    },
                    delay: 128,
                    ..self.byte_ready()
                }
            }
        }
    }

    /// One step of the running command (the phase is consumed: a finished
    /// command drops to Idle).
    pub open spec fn advance(self) -> Self {
        let s = FdcState { phase: PhaseState::Idle, ..self };
        match self.phase {
            PhaseState::Idle => self,
            PhaseState::GatherParams { .. } => self,
            PhaseState::Reading { track, sector, side, bytes_left, offset, sectors_left } => {
                s.reading_step(track, sector, side, bytes_left, offset, sectors_left)
            },
            PhaseState::Writing {
                track,
                sector,
                side,
                bytes_left,
                offset,
                sectors_left,
                buffer,
            } => s.writing_step(track, sector, side, bytes_left, offset, sectors_left, buffer),
            PhaseState::FinishingRead => s.complete(result::OK),
            PhaseState::Complete => s,
        }
    }

    /// Time passing: the disc turns, the spin-up delay runs down, and once
    /// the step delay has elapsed the command advances one step.
    pub open spec fn ticked(self, cycles: u32) -> Self {
        let s = FdcState {
            rotation_cycle: ((self.rotation_cycle + cycles) % 400_000) as u32,
            spin_up_remaining: if self.spin_up_remaining > cycles {
                (self.spin_up_remaining - cycles) as u32
            } else {
                0
            },
            ..self
        };
        if cycles == 0 {
            s
        } else if self.delay > cycles {
            FdcState { delay: (self.delay - cycles) as u32, ..s }
        } else {
            FdcState { delay: 0, ..s }.advance()
        }
    }

    /// Structural sanity: a valid drive is selected and a transfer in
    /// progress stays within its sector.
    pub open spec fn wf(self) -> bool {
        &&& self.cur_drive < 2
        &&& self.drives.len() == 2
        &&& self.params.len() == 5
        &&& self.special.len() == 64
        &&& match self.phase {
            PhaseState::Reading { bytes_left, offset, .. } => 1 <= bytes_left && offset
                + bytes_left <= 256,
            PhaseState::Writing { bytes_left, offset, buffer, .. } => buffer.len() < 256
                && buffer.len() + bytes_left <= 256 && offset == buffer.len(),
            _ => true,
        }
    }
}

impl Fdc8271 {
    pub open spec fn wf(&self) -> bool {
        self@.wf()
    }

    pub fn new() -> (f: Self)
        ensures
            f.wf(),
            f@.status == 0 && f@.result == 0 && f@.data == 0 && f@.command == 0,
            f@.params == Seq::new(5, |i: int| 0u8),
            f@.paramnum == 0 && f@.paramreq == 0 && f@.delay == 0,
            f@.drives == seq![
                DriveState { image: None, double_sided: false, track: 0, write_protect: false },
                DriveState { image: None, double_sided: false, track: 0, write_protect: false },
            ],
            f@.cur_drive == 0 && f@.side == 0,
            f@.phase == PhaseState::Idle,
            f@.special == Seq::new(64, |i: int| 0u8),
            !f@.nmi_pending,
            f@.step_rate == 0 && f@.head_settle == 0 && f@.head_load == 0,
            f@.rotation_cycle == 0 && f@.spin_up_remaining == 0,
    {
        let f = Fdc8271 {
            status: 0,
            result: 0,
            data: 0,
            command: 0,
            params: [0u8; 5],
            paramnum: 0,
            paramreq: 0,
            delay: 0,
            drives: [
                Drive { image: None, double_sided: false, track: 0, write_protect: false },
                Drive { image: None, double_sided: false, track: 0, write_protect: false },
            ],
            cur_drive: 0,
            side: 0,
            phase: Phase::Idle,
            special: [0u8; 64],
            nmi_pending: false,
            step_rate: 0,
            head_settle: 0,
            head_load: 0,
            rotation_cycle: 0,
            spin_up_remaining: 0,
        };
        assert(f@.params =~= Seq::new(5, |i: int| 0u8));
        assert(f@.special =~= Seq::new(64, |i: int| 0u8));
        f
    }

    /// Load a disc image into drive 0 or 1: exactly 400 KiB is a DSD; up to
    /// 200 KiB is an SSD, zero-padded to the full 80 tracks; anything else is
    /// refused. A drive number of 2 or more is refused too.
    pub fn load_image(&mut self, drive: usize, bytes: Vec<u8>) -> (r: Result<(), FdcError>)
        ensures
            drive >= 2 ==> (r matches Err(FdcError::SeekOutOfRange { track }) && track
                == drive as u8) && final(self)@ == old(self)@,
            drive < 2 && bytes@.len() == DSD_SIZE ==> r is Ok && final(self)@ == (FdcState {
                drives: old(self)@.drives.update(
                    drive as int,
                    DriveState {
                        image: Some(bytes@),
                        double_sided: true,
                        ..old(self)@.drives[drive as int]
                    },
                ),
                ..old(self)@
            }),
            drive < 2 && bytes@.len() <= SSD_SIZE ==> r is Ok && final(self)@ == (FdcState {
                drives: old(self)@.drives.update(
                    drive as int,
                    DriveState {
                        image: Some(bytes@ + Seq::new((SSD_SIZE - bytes@.len()) as nat, |i: int| 0u8)),
                        double_sided: false,
                        ..old(self)@.drives[drive as int]
                    },
                ),
                ..old(self)@
            }),
            drive < 2 && bytes@.len() > SSD_SIZE && bytes@.len() != DSD_SIZE ==> (r matches Err(
                FdcError::BadImageSize { actual },
            ) && actual == bytes@.len()) && final(self)@ == old(self)@,
            old(self).wf() ==> final(self).wf(),
    {
        if drive >= 2 {
            return Err(FdcError::SeekOutOfRange { track: drive as u8 });
        }
        let len = bytes.len();
        if len == DSD_SIZE {
            self.drives[drive].image = Some(bytes);
            self.drives[drive].double_sided = true;
            assert(final(self)@.drives =~= old(self)@.drives.update(
                drive as int,
                DriveState {
                    image: Some(bytes@),
                    double_sided: true,
                    ..old(self)@.drives[drive as int]
                },
            ));
        } else if len <= SSD_SIZE {
            let ghost orig = bytes@;
            let mut padded = bytes;
            while padded.len() < SSD_SIZE
                invariant
                    orig.len() <= padded@.len() <= SSD_SIZE,
                    padded@ == orig + Seq::new((padded@.len() - orig.len()) as nat, |i: int| 0u8),
                decreases SSD_SIZE - padded.len(),
            {
                padded.push(0);
                assert(padded@ =~= orig + Seq::new(
                    (padded@.len() - orig.len()) as nat,
                    |i: int| 0u8,
                ));
            }
            self.drives[drive].image = Some(padded);
            self.drives[drive].double_sided = false;
            assert(final(self)@.drives =~= old(self)@.drives.update(
                drive as int,
                DriveState {
                    image: Some(orig + Seq::new((SSD_SIZE - orig.len()) as nat, |i: int| 0u8)),
                    double_sided: false,
                    ..old(self)@.drives[drive as int]
                },
            ));
        } else {
            return Err(FdcError::BadImageSize { actual: len });
        }
        Ok(())
    }

    /// Load an SSD image into drive 0, ignoring a refusal.
    pub fn load_ssd(&mut self, bytes: Vec<u8>)
        ensures
            bytes@.len() == DSD_SIZE ==> final(self)@.drives[0] == (DriveState {
                image: Some(bytes@),
                double_sided: true,
                ..old(self)@.drives[0]
            }),
            bytes@.len() <= SSD_SIZE ==> final(self)@.drives[0] == (DriveState {
                image: Some(bytes@ + Seq::new((SSD_SIZE - bytes@.len()) as nat, |i: int| 0u8)),
                double_sided: false,
                ..old(self)@.drives[0]
            }),
            bytes@.len() > SSD_SIZE && bytes@.len() != DSD_SIZE ==> final(self)@ == old(self)@,
            final(self)@ == (FdcState { drives: final(self)@.drives, ..old(self)@ }),
            final(self)@.drives[1] == old(self)@.drives[1],
            old(self).wf() ==> final(self).wf(),
    {
        let _ = self.load_image(0, bytes);
    }

    pub fn has_disk(&self) -> (b: bool)
        ensures
            b == (self@.drives[0].image is Some || self@.drives[1].image is Some),
    {
        self.drives[0].loaded() || self.drives[1].loaded()
    }

    /// True if an NMI edge is waiting; delivering it clears it.
    pub fn poll_nmi_edge(&mut self) -> (edge: bool)
        ensures
            edge == old(self)@.nmi_pending,
            final(self)@ == (FdcState { nmi_pending: false, ..old(self)@ }),
    {
        let edge = self.nmi_pending;
        self.nmi_pending = false;
        edge
    }

    /// The index hole is under the head for the first tenth of a turn.
    fn index_active(&self) -> (b: bool)
        ensures
            b == (self.rotation_cycle < 40_000),
    {
        self.rotation_cycle < 40_000
    }

    fn complete_with(&mut self, code: u8)
        ensures
            final(self)@ == old(self)@.complete(code),
    {
        self.result = code;
        let was_int = self.status & status::INTERRUPT != 0;
        self.status = status::RESULT_FULL | status::INTERRUPT;
        if !was_int {
            self.nmi_pending = true;
        }
        self.phase = Phase::Idle;
        self.phase = Phase::Complete;
        self.delay = 0;
    }

    fn byte_ready(&mut self)
        ensures
            final(self)@ == old(self)@.byte_ready(),
    {
        let was_int = self.status & status::INTERRUPT != 0;
        self.status = status::BUSY | status::NDDR | status::INTERRUPT;
        if !was_int {
            self.nmi_pending = true;
        }
    }

    /// Advance by `cycles` CPU clocks.
    pub fn tick(&mut self, cycles: u32)
        requires
            old(self).wf(),
        ensures
            final(self)@ == old(self)@.ticked(cycles),
            final(self).wf(),
    {
        self.rotation_cycle = ((self.rotation_cycle as u64 + cycles as u64) % 400_000) as u32;
        self.spin_up_remaining = if self.spin_up_remaining > cycles {
            self.spin_up_remaining - cycles
        } else {
            0
        };
        if cycles == 0 {
            return;
        }
        if self.delay > cycles {
            self.delay = self.delay - cycles;
            return;
        }
        self.delay = 0;
        self.advance_phase();
    }

    fn reading_step(
        &mut self,
        track: u8,
        sector: u8,
        side: u8,
        bytes_left: u32,
        offset: usize,
        sectors_left: u8,
    )
        requires
            old(self).cur_drive < 2,
            1 <= bytes_left,
            offset + bytes_left <= 256,
        ensures
            final(self)@ == old(self)@.reading_step(
                track,
                sector,
                side,
                bytes_left,
                offset,
                sectors_left,
            ),
    {
        if self.status & status::NDDR != 0 {
            self.phase = Phase::Reading { track, sector, side, bytes_left, offset, sectors_left };
            self.delay = 16;
            return;
        }
        let c = self.cur_drive;
        let byte: Option<u8> = match self.drives[c].read_sector(side, track, sector) {
            Some(sec) => Some(if offset < sec.len() { sec[offset] } else { 0 }),
            None => None,
        };
        match byte {
            None => {
                self.complete_with(result::SECTOR_NOT_FOUND);
            },
            Some(b) => {
                self.data = b;
                let left: u32 = if bytes_left > 0 { bytes_left - 1 } else { 0 };
                self.byte_ready();
                if left == 0 {
                    if sectors_left > 1 {
                        self.phase = Phase::Reading {
                            track,
                            sector: sector.wrapping_add(1),
                            side,
                            bytes_left: SECTOR_SIZE as u32,
                            offset: 0,
                            sectors_left: sectors_left - 1,
                        };
                        self.delay = 200;
                    } else {
                        self.phase = Phase::FinishingRead;
                        self.delay = 200;
                    }
                } else {
                    self.phase = Phase::Reading {
                        track,
                        sector,
                        side,
                        bytes_left: left,
                        offset: offset + 1,
                        sectors_left,
                    };
                    self.delay = 128;
                }
            },
        }
    }

    fn writing_step(
        &mut self,
        track: u8,
        sector: u8,
        side: u8,
        bytes_left: u32,
        offset: usize,
        sectors_left: u8,
        buffer: Vec<u8>,
    )
        requires
            old(self).cur_drive < 2,
            buffer@.len() < 256,
            buffer@.len() + bytes_left <= 256,
            offset == buffer@.len(),
        ensures
            final(self)@ == old(self)@.writing_step(
                track,
                sector,
                side,
                bytes_left,
                offset,
                sectors_left,
                buffer@,
            ),
    {
        if bytes_left == SECTOR_SIZE as u32 {
            self.byte_ready();
            self.phase = Phase::Writing {
                track,
                sector,
                side,
                bytes_left: bytes_left - 1,
                offset,
                sectors_left,
                buffer,
            };
            self.delay = 128;
            return;
        }
        let mut buf = buffer;
        buf.push(self.data);
        let new_left: u32 = if bytes_left > 0 { bytes_left - 1 } else { 0 };
        if new_left == 0 && buf.len() == SECTOR_SIZE {
            let c = self.cur_drive;
            let ghost before = *self;
            if !self.drives[c].write_sector(side, track, sector, buf.as_slice()) {
                self.complete_with(result::WRITE_PROTECTED);
                return;
            }
            assert(self@.drives =~= before@.drives.update(c as int, self.drives@[c as int]@));
            if sectors_left > 1 {
                buf.clear();
                self.phase = Phase::Writing {
                    track,
                    sector: sector.wrapping_add(1),
                    side,
                    bytes_left: SECTOR_SIZE as u32,
                    offset: 0,
                    sectors_left: sectors_left - 1,
                    buffer: buf,
                };
                self.delay = 200;
            } else {
                self.phase = Phase::FinishingRead;
                self.delay = 200;
            }
        } else {
            self.byte_ready();
            self.phase = Phase::Writing {
                track,
                sector,
                side,
                bytes_left: new_left,
                offset: offset + 1,
                sectors_left,
                buffer: buf,
            };
            self.delay = 128;
        }
    }

    fn advance_phase(&mut self)
        requires
            old(self).wf(),
        ensures
            final(self)@ == old(self)@.advance(),
            final(self).wf(),
    {
        match self.phase {
            Phase::Idle => {
                return;
            },
            Phase::GatherParams { .. } => {
                return;
            },
            _ => {},
        }
        let mut ph = Phase::Idle;
        std::mem::swap(&mut self.phase, &mut ph);
        match ph {
            Phase::Reading { track, sector, side, bytes_left, offset, sectors_left } => {
                self.reading_step(track, sector, side, bytes_left, offset, sectors_left);
            },
            Phase::Writing { track, sector, side, bytes_left, offset, sectors_left, buffer } => {
                self.writing_step(track, sector, side, bytes_left, offset, sectors_left, buffer);
            },
            Phase::FinishingRead => {
                self.complete_with(result::OK);
            },
            _ => {},
        }
    }

    /// Register read: status, result (clears RESULT_FULL and INT) or data
    /// (clears NDDR and INT); other registers read 0.
    pub fn read(&mut self, reg: u8) -> (v: u8)
        requires
            old(self).wf(),
        ensures
            v == old(self)@.read_value(reg),
            final(self)@ == old(self)@.after_read(reg),
            final(self).wf(),
    {
        assert(reg & 0x07 == reg % 8) by {
            crate::bits::lemma_byte_fields(reg);
        }
        let r = reg & 0x07;
        if r == 0 {
            self.status
        } else if r == 1 {
            let v = self.result;
            self.status = self.status & !(status::RESULT_FULL | status::INTERRUPT);
            v
        } else if r == 4 || r == 5 {
            let d = self.data;
            self.status = self.status & !(status::NDDR | status::INTERRUPT);
            d
        } else {
            0
        }
    }

    /// Register write: command, parameter, reset or data.
    pub fn write(&mut self, reg: u8, value: u8)
        requires
            old(self).wf(),
        ensures
            final(self)@ == old(self)@.after_write(reg, value),
            final(self).wf(),
    {
        assert(reg & 0x07 == reg % 8) by {
            crate::bits::lemma_byte_fields(reg);
        }
        let r = reg & 0x07;
        if r == 0 {
            self.write_command(value);
        } else if r == 1 {
            self.write_parameter(value);
        } else if r == 2 {
            self.status = 0;
            self.result = 0;
            self.command = 0;
            self.paramnum = 0;
            self.paramreq = 0;
            self.delay = 0;
            self.phase = Phase::Idle;
            self.nmi_pending = false;
        } else if r == 4 || r == 5 {
            self.data = value;
            self.status = self.status & !(status::NDDR | status::INTERRUPT);
        }
    }

    fn write_command(&mut self, value: u8)
        requires
            old(self).wf(),
        ensures
            final(self)@ == old(self)@.command_written(value),
            final(self).wf(),
    {
        if self.status & status::BUSY != 0 {
            return;
        }
        assert((value & 0x80 != 0) == (value >= 0x80) && value & 0x3F == value % 64)
            by (bit_vector);
        self.cur_drive = if value & 0x80 != 0 { 1 } else { 0 };
        let cmd = value & 0x3F;
        self.command = cmd;
        self.paramnum = 0;
        self.status = status::BUSY;
        self.paramreq = if cmd == 0x2C {
            0
        } else if cmd == 0x29 || cmd == 0x3D {
            1
        } else if cmd == 0x0A || cmd == 0x0E || cmd == 0x12 || cmd == 0x16 || cmd == 0x1E || cmd
            == 0x3A {
            2
        } else if cmd == 0x0B || cmd == 0x0F || cmd == 0x13 || cmd == 0x17 || cmd == 0x1F || cmd
            == 0x1B {
            3
        } else if cmd == 0x35 {
            4
        } else if cmd == 0x00 || cmd == 0x04 || cmd == 0x23 {
            5
        } else {
            0
        };
        if self.paramreq == 0 {
            self.execute_command();
        } else {
            self.phase = Phase::GatherParams { paramreq: self.paramreq };
        }
    }

    fn write_parameter(&mut self, value: u8)
        requires
            old(self).wf(),
        ensures
            final(self)@ == old(self)@.parameter_written(value),
            final(self).wf(),
    {
        match self.phase {
            Phase::GatherParams { .. } => {},
            _ => {
                return;
            },
        }
        if self.paramnum < 5 {
            self.params[self.paramnum as usize] = value;
            self.paramnum = self.paramnum + 1;
        }
        if self.paramnum >= self.paramreq {
            self.execute_command();
        }
    }

    fn execute_command(&mut self)
        requires
            old(self).wf(),
        ensures
            final(self)@ == old(self)@.execute(),
            final(self).wf(),
    {
        let c = self.command;
        if c == 0x2C {
            self.cmd_read_drive_status();
        } else if c == 0x29 {
            self.cmd_seek();
        } else if c == 0x35 {
            self.cmd_specify();
        } else if c == 0x3D {
            self.cmd_read_special_register();
        } else if c == 0x3A {
            self.cmd_write_special_register();
        } else if c == 0x1B {
            self.cmd_read_id();
        } else if c == 0x12 || c == 0x13 || c == 0x16 || c == 0x17 {
            self.cmd_read_data();
        } else if c == 0x0A || c == 0x0B || c == 0x0E || c == 0x0F {
            self.cmd_write_data();
        } else if c == 0x1E || c == 0x1F {
            self.cmd_verify_data();
        } else if c == 0x23 {
            self.cmd_format_track();
        } else {
            self.complete_with(result::SECTOR_NOT_FOUND);
        }
    }

    fn cmd_read_drive_status(&mut self)
        requires
            old(self).wf(),
        ensures
            final(self)@ == old(self)@.read_drive_status(),
    {
        let drive_out = self.special[0x23];
        let select_0 = drive_out & 0x40 != 0;
        let select_1 = drive_out & 0x80 != 0;
        let load_head = drive_out & 0x08 != 0;
        let stable = self.spin_up_remaining == 0;
        let unset = drive_out & 0xC0 == 0;
        let c = self.cur_drive;
        let spinning_0 = ((select_0 && load_head) || (unset && c == 0)) && self.drives[0].loaded()
            && stable;
        let spinning_1 = ((select_1 && load_head) || (unset && c == 1)) && self.drives[1].loaded()
            && stable;
        let wp: u8 = if self.drives[c].write_protect { 0x08 } else { 0 };
        let rdy0: u8 = if spinning_0 { 0x04 } else { 0 };
        let rdy1: u8 = if spinning_1 { 0x40 } else { 0 };
        let trk0: u8 = if (spinning_0 || spinning_1) && self.drives[c].track == 0 {
            0x02
        } else {
            0
        };
        let index: u8 = if (spinning_0 || spinning_1) && self.index_active() { 0x10 } else { 0 };
        self.result = 0x81u8 | wp | rdy0 | rdy1 | trk0 | index;
        self.status = status::RESULT_FULL;
        self.phase = Phase::Idle;
    }

    fn cmd_seek(&mut self)
        requires
            old(self).wf(),
        ensures
            final(self)@ == old(self)@.seek(),
    {
        let target = self.params[0];
        if target as usize >= TRACKS_PER_DISK {
            self.complete_with(result::SECTOR_NOT_FOUND);
            return;
        }
        let c = self.cur_drive;
        self.drives[c].track = target;
        let prev = self.drives[c].track;
        let delta: u32 = if target >= prev { (target - prev) as u32 } else { (prev - target) as u32 };
        let rate: u32 = self.step_rate as u32 + 1;
        assert(delta * rate * 100 <= 255 * 256 * 100) by (nonlinear_arith)
            requires
                delta <= 255,
                rate <= 256,
        ;
        let d: u32 = delta * rate * 100;
        self.delay = if d > 200 { d } else { 200 };
        self.complete_with(result::OK);
        assert(final(self)@.drives =~= old(self)@.seek().drives);
    }

    fn cmd_specify(&mut self)
        requires
            old(self).wf(),
        ensures
            final(self)@ == old(self)@.specify(),
    {
        let p0 = self.params[0];
        if p0 == 0x0D {
            self.step_rate = self.params[1];
            self.head_settle = self.params[2];
            self.head_load = self.params[3];
        } else if p0 == 0x10 {
            self.special[0] = self.params[1];
            self.special[1] = self.params[2];
            self.special[2] = self.params[3];
            self.special[3] = self.params[4];
        } else if p0 == 0x18 {
            self.special[10] = self.params[1];
            self.special[11] = self.params[2];
            self.special[12] = self.params[3];
            self.special[13] = self.params[4];
        }
        self.complete_with(result::OK);
        assert(final(self)@.special =~= old(self)@.specify().special);
    }

    fn cmd_read_special_register(&mut self)
        requires
            old(self).wf(),
        ensures
            final(self)@ == old(self)@.read_special(),
    {
        let p = self.params[0];
        assert(p & 0x3F == p % 64) by {
            crate::bits::lemma_byte_fields(p);
        }
        let idx = self.params[0] & 0x3F;
        self.result = self.special[idx as usize];
        self.status = status::RESULT_FULL;
        self.phase = Phase::Idle;
    }

    fn cmd_write_special_register(&mut self)
        requires
            old(self).wf(),
        ensures
            final(self)@ == old(self)@.write_special(),
            final(self).wf(),
    {
        let p = self.params[0];
        assert(p & 0x3F == p % 64) by {
            crate::bits::lemma_byte_fields(p);
        }
        let idx = self.params[0] & 0x3F;
        let val = self.params[1];
        if idx == 0x23 {
            let prev = self.special[0x23];
            let was_spinning = (prev & 0xC0) != 0 && (prev & 0x08) != 0;
            let now_spinning = (val & 0xC0) != 0 && (val & 0x08) != 0;
            let sel = val & 0xC0;
            if sel == 0x40 {
                self.cur_drive = 0;
            } else if sel == 0x80 {
                self.cur_drive = 1;
            }
            self.side = if val & 0x20 != 0 { 1 } else { 0 };
            if now_spinning && !was_spinning {
                self.spin_up_remaining = 1_000;
            }
        }
        self.special[idx as usize] = val;
        self.complete_with(result::OK);
        assert(final(self)@.special =~= old(self)@.write_special().special);
    }

    fn cmd_read_id(&mut self)
        requires
            old(self).wf(),
        ensures
            final(self)@ == old(self)@.read_id(),
    {
        let track = self.drives[self.cur_drive].track;
        if track as usize >= TRACKS_PER_DISK {
            self.complete_with(result::SECTOR_NOT_FOUND);
            return;
        }
        self.data = track;
        self.status = status::RESULT_FULL | status::NDDR;
        self.nmi_pending = true;
        self.complete_with(result::OK);
    }

    fn cmd_read_data(&mut self)
        requires
            old(self).wf(),
        ensures
            final(self)@ == old(self)@.read_data(),
            final(self).wf(),
    {
        let track = self.params[0];
        let sector = self.params[1];
        let p2 = self.params[2];
        assert(p2 & 0x1F == p2 % 32) by {
            crate::bits::lemma_byte_fields(p2);
        }
        let masked = self.params[2] & 0x1F;
        let count = if masked == 0 { 1 } else { masked };
        if track as usize >= TRACKS_PER_DISK || sector as usize >= SECTORS_PER_TRACK {
            self.complete_with(result::SECTOR_NOT_FOUND);
            return;
        }
        let c = self.cur_drive;
        self.drives[c].track = track;
        self.phase = Phase::Reading {
            track,
            sector,
            side: self.side,
            bytes_left: SECTOR_SIZE as u32,
            offset: 0,
            sectors_left: count,
        };
        self.delay = 8_000;
        assert(final(self)@.drives =~= old(self)@.read_data().drives);
    }

    fn cmd_write_data(&mut self)
        requires
            old(self).wf(),
        ensures
            final(self)@ == old(self)@.write_data(),
            final(self).wf(),
    {
        let track = self.params[0];
        let sector = self.params[1];
        let p2 = self.params[2];
        assert(p2 & 0x1F == p2 % 32) by {
            crate::bits::lemma_byte_fields(p2);
        }
        let masked = self.params[2] & 0x1F;
        let count = if masked == 0 { 1 } else { masked };
        if track as usize >= TRACKS_PER_DISK || sector as usize >= SECTORS_PER_TRACK {
            self.complete_with(result::SECTOR_NOT_FOUND);
            return;
        }
        let c = self.cur_drive;
        if self.drives[c].write_protect {
            self.complete_with(result::WRITE_PROTECTED);
            return;
        }
        self.drives[c].track = track;
        self.phase = Phase::Writing {
            track,
            sector,
            side: self.side,
            bytes_left: SECTOR_SIZE as u32,
            offset: 0,
            sectors_left: count,
            buffer: Vec::new(),
        };
        self.status = status::BUSY;
        self.delay = 200;
        assert(final(self)@.drives =~= old(self)@.write_data().drives);
    }

    fn cmd_verify_data(&mut self)
        requires
            old(self).wf(),
        ensures
            final(self)@ == old(self)@.verify_data(),
    {
        let track = self.params[0];
        let sector = self.params[1];
        if track as usize >= TRACKS_PER_DISK || sector as usize >= SECTORS_PER_TRACK {
            self.complete_with(result::SECTOR_NOT_FOUND);
            return;
        }
        self.complete_with(result::OK);
    }

    fn cmd_format_track(&mut self)
        requires
            old(self).wf(),
        ensures
            final(self)@ == old(self)@.format_track(),
    {
        let track = self.params[0];
        if track as usize >= TRACKS_PER_DISK {
            self.complete_with(result::SECTOR_NOT_FOUND);
            return;
        }
        let c = self.cur_drive;
        let side = self.side;
        let blank = [0u8; 256];
        assert(blank@ =~= Seq::new(256, |i: int| 0u8));
        let ghost d0 = self.drives@[c as int]@;
        let ghost pre = *self;
        let mut sector: u8 = 0;
        while sector < 10
            invariant
                sector <= 10,
                c == pre.cur_drive,
                c < 2,
                blank@ == Seq::new(256, |i: int| 0u8),
                self.drives@[c as int]@ == d0.zero_sectors(side, track, sector as nat),
                self.drives@[1 - c as int]@ == pre.drives@[1 - c as int]@,
                self@ == (FdcState { drives: self@.drives, ..pre@ }),
            decreases 10 - sector,
        {
            let _ = self.drives[c].write_sector(side, track, sector, &blank);
            sector = sector + 1;
        }
        self.complete_with(result::OK);
        assert(final(self)@.drives =~= old(self)@.format_track().drives);
    }

    pub fn status_byte(&self) -> (s: u8)
        ensures
            s == self.status,
    {
        self.status
    }

    /// Number of drives with a disc loaded.
    pub fn drive_count(&self) -> (n: usize)
        ensures
            n == (if self@.drives[0].image is Some { 1int } else { 0 }) + (if self@.drives[1].image is Some {
                1int
            } else {
                0
            }),
    {
        let mut n: usize = 0;
        if self.drives[0].loaded() {
            n = n + 1;
        }
        if self.drives[1].loaded() {
            n = n + 1;
        }
        n
    }

    pub fn current_track(&self) -> (t: u8)
        requires
            self.wf(),
        ensures
            t == self@.cur().track,
    {
        self.drives[self.cur_drive].track
    }

    /// Track of drive `drive`; 0 for a drive that does not exist.
    pub fn drive_track(&self, drive: usize) -> (t: u8)
        ensures
            t == if drive < 2 { self@.drives[drive as int].track } else { 0 },
    {
        if drive < 2 {
            self.drives[drive].track
        } else {
            0
        }
    }

    /// Put drive `drive`'s head on `track`; other drive numbers are ignored.
    pub fn set_drive_track(&mut self, drive: usize, track: u8)
        ensures
            drive < 2 ==> final(self)@ == (FdcState {
                drives: old(self)@.drives.update(
                    drive as int,
                    DriveState { track, ..old(self)@.drives[drive as int] },
                ),
                ..old(self)@
            }),
            drive >= 2 ==> final(self)@ == old(self)@,
            old(self).wf() ==> final(self).wf(),
    {
        if drive < 2 {
            self.drives[drive].track = track;
            assert(final(self)@.drives =~= old(self)@.drives.update(
                drive as int,
                DriveState { track, ..old(self)@.drives[drive as int] },
            ));
        }
    }

    pub fn cur_drive_index(&self) -> (d: usize)
        ensures
            d == self.cur_drive,
    {
        self.cur_drive
    }

    /// Select drive 0 or 1; other values are ignored.
    pub fn set_cur_drive(&mut self, drive: usize)
        ensures
            drive < 2 ==> final(self)@ == (FdcState { cur_drive: drive, ..old(self)@ }),
            drive >= 2 ==> final(self)@ == old(self)@,
            old(self).wf() ==> final(self).wf(),
    {
        if drive < 2 {
            self.cur_drive = drive;
        }
    }

    pub fn side_index(&self) -> (s: u8)
        ensures
            s == self.side,
    {
        self.side
    }

    /// Select the disc side (bit 0 of `side`).
    pub fn set_side(&mut self, side: u8)
        ensures
            final(self)@ == (FdcState { side: side % 2, ..old(self)@ }),
    {
        assert(side & 1 == side % 2) by {
            crate::bits::lemma_byte_fields(side);
        }
        self.side = side & 1;
    }
}

impl Default for Fdc8271 {
    fn default() -> (f: Self)
        ensures
            f.wf(),
            f@.status == 0 && f@.result == 0 && f@.data == 0 && f@.command == 0,
            f@.params == Seq::new(5, |i: int| 0u8),
            f@.paramnum == 0 && f@.paramreq == 0 && f@.delay == 0,
            f@.drives == seq![
                DriveState { image: None, double_sided: false, track: 0, write_protect: false },
                DriveState { image: None, double_sided: false, track: 0, write_protect: false },
            ],
            f@.cur_drive == 0 && f@.side == 0,
            f@.phase == PhaseState::Idle,
            f@.special == Seq::new(64, |i: int| 0u8),
            !f@.nmi_pending,
            f@.step_rate == 0 && f@.head_settle == 0 && f@.head_load == 0,
            f@.rotation_cycle == 0 && f@.spin_up_remaining == 0,
    {
        Fdc8271::new()
    }
}

/// A read in progress as the CPU services it: `k` times the controller's
/// next step comes due and the CPU then reads the data register. The
/// controller afterwards, and the bytes the CPU read, in order.
pub open spec fn read_bytes_taken(s: FdcState, k: nat) -> (FdcState, Seq<u8>)
    decreases k,
{
    if k == 0 {
        (s, Seq::empty())
    } else {
        let (t, out) = read_bytes_taken(s, (k - 1) as nat);
        let u = t.advance();
        (u.after_read(4), out.push(u.read_value(4)))
    }
}

/// A Read Data of `count` sectors from `sector` of `track`, with the CPU
/// taking every byte: the bytes come straight from the disc image, the
/// `k`-th being image byte `start + k`, where `start` is where the first
/// sector begins (sectors of a track, on one side, lie one after another).
/// So the `k`-th byte is byte `k % 256` of sector `sector + k / 256`. Until
/// the last byte the controller is reading that sector at that byte; after
/// it the transfer is finishing. The disc is not changed.
#[verifier::spinoff_prover]
#[verifier::rlimit(60)]
pub proof fn lemma_multi_sector_read(
    s: FdcState,
    img: Seq<u8>,
    track: u8,
    sector: u8,
    side: u8,
    count: u8,
    k: nat,
)
    requires
        s.phase == (PhaseState::Reading {
            track,
            sector,
            side,
            bytes_left: 256,
            offset: 0,
            sectors_left: count,
        }),
        s.status & status::NDDR == 0,
        1 <= count,
        track < 80,
        sector + count <= 10,
        side < 2,
        s.cur().image == Some(img),
        (if s.cur().double_sided {
            ((track * 2 + side) * 10 + sector) * 256
        } else {
            (track * 10 + sector) * 256
        }) + 256 * count <= img.len(),
        k <= 256 * count,
    ensures
        ({
            let start = if s.cur().double_sided {
                ((track * 2 + side) * 10 + sector) * 256
            } else {
                (track * 10 + sector) * 256
            };
            let (t, out) = read_bytes_taken(s, k);
            &&& out == img.subrange(start, start + k)
            &&& t.drives == s.drives && t.cur_drive == s.cur_drive
            &&& k < 256 * count ==> t.phase == (PhaseState::Reading {
                track,
                sector: (sector + k / 256) as u8,
                side,
                bytes_left: (256 - k % 256) as u32,
                offset: (k % 256) as usize,
                sectors_left: (count - k / 256) as u8,
            }) && t.status & status::NDDR == 0
            &&& k == 256 * count ==> t.phase == PhaseState::FinishingRead
        }),
    decreases k,
{
    let start = if s.cur().double_sided {
        ((track * 2 + side) * 10 + sector) * 256
    } else {
        (track * 10 + sector) * 256
    };
    if k > 0 {
        let j = (k - 1) as nat;
        lemma_multi_sector_read(s, img, track, sector, side, count, j);
        let (t, out) = read_bytes_taken(s, j);
        let q = j / 256;
        let r = j % 256;
        assert(j == 256 * q + r);
        let sec = (sector + q) as u8;
        let u = t.advance();
        let off = if s.cur().double_sided {
            ((track * 2 + side) * 10 + sec) * 256
        } else {
            (track * 10 + sec) * 256
        };
        assert(off == start + 256 * q);
        assert(t.cur() == s.cur());
        assert(s.cur().sector(side, track, sec) == Some(img.subrange(off, off + 256)));
        assert(u.data == img[start + j]);
        assert((0x80u8 | 0x04u8 | 0x08u8) & !(0x04u8 | 0x08u8) & 0x04 == 0) by (bit_vector);
        assert(4u8 % 8 == 4);
        let (t2, out2) = read_bytes_taken(s, k);
        assert(out2 =~= img.subrange(start, start + k));
        if r < 255 {
            assert(k / 256 == q && k % 256 == r + 1);
        } else {
            assert(k / 256 == q + 1 && k % 256 == 0);
        }
    }
}

/// Read Data with parameters track, first sector and sector count (low
/// five bits, 0 meaning 1), its sectors on the disc and the CPU taking every
/// byte: the `k`-th byte delivered is image byte `start + k`, `start` being
/// the first sector's place in the image, i.e. byte `k % 256` of sector
/// `first + k / 256`.
pub proof fn lemma_read_data_command(s: FdcState, img: Seq<u8>, k: nat)
    requires
        s.wf(),
        s.status & status::NDDR == 0,
        s.side < 2,
        s.params[0] < 80,
        s.params[1] + (if s.params[2] % 32 == 0 { 1 } else { s.params[2] % 32 }) <= 10,
        s.cur().image == Some(img),
        (if s.cur().double_sided {
            ((s.params[0] * 2 + s.side) * 10 + s.params[1]) * 256
        } else {
            (s.params[0] * 10 + s.params[1]) * 256
        }) + 256 * (if s.params[2] % 32 == 0 { 1 } else { s.params[2] % 32 }) <= img.len(),
        k <= 256 * (if s.params[2] % 32 == 0 { 1 } else { s.params[2] % 32 }),
    ensures
        ({
            let start = if s.cur().double_sided {
                ((s.params[0] * 2 + s.side) * 10 + s.params[1]) * 256
            } else {
                (s.params[0] * 10 + s.params[1]) * 256
            };
            read_bytes_taken(s.read_data(), k).1 == img.subrange(start, start + k)
        }),
{
    let count: u8 = if s.params[2] % 32 == 0 { 1 } else { s.params[2] % 32 };
    let r = s.read_data();
    assert(r.cur() == DriveState { track: s.params[0], ..s.cur() });
    lemma_multi_sector_read(r, img, s.params[0], s.params[1], s.side, count, k);
}

/// One byte given to a write in the middle of a sector.
proof fn lemma_write_byte_mid(
    t: FdcState,
    b: u8,
    track: u8,
    sec: u8,
    side: u8,
    bl: u32,
    sl: u8,
    buf: Seq<u8>,
)
    requires
        t.phase == (PhaseState::Writing {
            track,
            sector: sec,
            side,
            bytes_left: bl,
            offset: buf.len() as usize,
            sectors_left: sl,
            buffer: buf,
        }),
        (buf.len() == 0 && bl == 256) || (1 <= buf.len() <= 254 && bl == 255 - buf.len()),
    ensures
        ({
            let t1 = if bl == 256 { t.advance() } else { t };
            let u = t1.after_write(4, b).advance();
            &&& u.phase == (PhaseState::Writing {
                track,
                sector: sec,
                side,
                bytes_left: (254 - buf.len()) as u32,
                offset: (buf.len() + 1) as usize,
                sectors_left: sl,
                buffer: buf.push(b),
            })
            &&& u.drives == t.drives
            &&& u.cur_drive == t.cur_drive
        }),
{
    assert(4u8 % 8 == 4);
}

/// The last byte of a sector given to a write: the sector is committed.
proof fn lemma_write_byte_last(
    t: FdcState,
    b: u8,
    track: u8,
    sec: u8,
    side: u8,
    sl: u8,
    buf: Seq<u8>,
)
    requires
        t.phase == (PhaseState::Writing {
            track,
            sector: sec,
            side,
            bytes_left: 0,
            offset: 255,
            sectors_left: sl,
            buffer: buf,
        }),
        buf.len() == 255,
        t.cur().write_sector(side, track, sec, buf.push(b)).1,
    ensures
        ({
            let u = t.after_write(4, b).advance();
            let d = t.cur().write_sector(side, track, sec, buf.push(b)).0;
            &&& u.drives == t.drives.update(t.cur_drive as int, d)
            &&& u.cur_drive == t.cur_drive
            &&& sl > 1 ==> u.phase == (PhaseState::Writing {
                track,
                sector: ((sec + 1) % 256) as u8,
                side,
                bytes_left: 256,
                offset: 0,
                sectors_left: (sl - 1) as u8,
                buffer: Seq::empty(),
            })
            &&& sl <= 1 ==> u.phase == PhaseState::FinishingRead
        }),
{
    assert(4u8 % 8 == 4);
}

/// A write in progress as the CPU services it, byte by byte: when a
/// sector is starting the controller's step first requests a byte; the CPU
/// writes the byte to the data register and the controller's next step
/// takes it.
pub open spec fn write_bytes_given(s: FdcState, data: Seq<u8>) -> FdcState
    decreases data.len(),
{
    if data.len() == 0 {
        s
    } else {
        let t = write_bytes_given(s, data.drop_last());
        let t1 = match t.phase {
            PhaseState::Writing { bytes_left, .. } => if bytes_left == 256 {
                t.advance()
            } else {
                t
            },
            _ => t,
        };
        t1.after_write(4, data.last()).advance()
    }
}

/// A Write Data of `count` sectors from `sector` of `track` to a writable
/// disc, with the CPU giving the bytes `data` in turn: each completed
/// sector lands in the image, so after `k` bytes the image holds the first
/// `256 * (k / 256)` of them from where the first sector begins (sectors of
/// a track, on one side, lie one after another) and is otherwise as it was;
/// other drives are untouched. Once every sector is written the transfer
/// is finishing.
#[verifier::spinoff_prover]
#[verifier::rlimit(60)]
pub proof fn lemma_multi_sector_write(
    s: FdcState,
    img: Seq<u8>,
    track: u8,
    sector: u8,
    side: u8,
    count: u8,
    data: Seq<u8>,
)
    requires
        s.wf(),
        s.phase == (PhaseState::Writing {
            track,
            sector,
            side,
            bytes_left: 256,
            offset: 0,
            sectors_left: count,
            buffer: Seq::empty(),
        }),
        1 <= count,
        track < 80,
        sector + count <= 10,
        side < 2,
        s.cur().image == Some(img),
        !s.cur().write_protect,
        (if s.cur().double_sided {
            ((track * 2 + side) * 10 + sector) * 256
        } else {
            (track * 10 + sector) * 256
        }) + 256 * count <= img.len(),
        data.len() <= 256 * count,
    ensures
        ({
            let start = if s.cur().double_sided {
                ((track * 2 + side) * 10 + sector) * 256
            } else {
                (track * 10 + sector) * 256
            };
            let t = write_bytes_given(s, data);
            let j = data.len() as int;
            let done = 256 * (j / 256);
            &&& t.cur().image == Some(
                img.subrange(0, start) + data.subrange(0, done) + img.subrange(
                    start + done,
                    img.len() as int,
                ),
            )
            &&& t.cur_drive == s.cur_drive
            &&& t.drives.len() == s.drives.len()
            &&& forall|d: int| 0 <= d < s.drives.len() && d != s.cur_drive ==> t.drives[d] == s.drives[d]
            &&& t.cur().double_sided == s.cur().double_sided
            &&& t.cur().write_protect == s.cur().write_protect
            &&& j < 256 * count ==> t.phase == (PhaseState::Writing {
                track,
                sector: (sector + j / 256) as u8,
                side,
                bytes_left: if j % 256 == 0 { 256 } else { (255 - j % 256) as u32 },
                offset: (j % 256) as usize,
                sectors_left: (count - j / 256) as u8,
                buffer: data.subrange(done, j),
            })
            &&& j == 256 * count ==> t.phase == PhaseState::FinishingRead
        }),
    decreases data.len(),
{
    let start = if s.cur().double_sided {
        ((track * 2 + side) * 10 + sector) * 256
    } else {
        (track * 10 + sector) * 256
    };
    if data.len() == 0 {
        assert(img.subrange(0, start) + data.subrange(0, 0) + img.subrange(start, img.len() as int)
            =~= img);
        assert(data.subrange(0, 0) =~= Seq::<u8>::empty());
    } else {
        let pre = data.drop_last();
        lemma_multi_sector_write(s, img, track, sector, side, count, pre);
        let t = write_bytes_given(s, pre);
        let p = pre.len() as int;
        let q = p / 256;
        let r = p % 256;
        assert(p == 256 * q + r);
        let j = data.len() as int;
        let sec = (sector + q) as u8;
        let im = img.subrange(0, start) + pre.subrange(0, 256 * q) + img.subrange(
            start + 256 * q,
            img.len() as int,
        );
        assert(im.len() == img.len());
        assert(data.subrange(0, 256 * q) =~= pre.subrange(0, 256 * q));
        let b = data.last();
        let buf = pre.subrange(256 * q, p);
        let sl = (count - q) as u8;
        let bl: u32 = if r == 0 { 256 } else { (255 - r) as u32 };
        assert(data.drop_last() == pre);
        if r < 255 {
            lemma_write_byte_mid(t, b, track, sec, side, bl, sl, buf);
            assert(j / 256 == q && j % 256 == r + 1);
            assert(data.subrange(256 * q, j) =~= buf.push(b));
            assert(data.subrange(0, 256 * q) =~= pre.subrange(0, 256 * q));
        } else {
            assert(t.cur().image == Some(im));
            assert(t.cur().write_sector(side, track, sec, buf.push(b)).1);
            lemma_write_byte_last(t, b, track, sec, side, sl, buf);
            assert(j / 256 == q + 1 && j % 256 == 0);
            let buf = buf.push(b);
            assert(buf =~= data.subrange(256 * q, j));
            assert(data.subrange(j, j) =~= Seq::<u8>::empty());
            let off = if s.cur().double_sided {
                ((track * 2 + side) * 10 + sec) * 256
            } else {
                (track * 10 + sec) * 256
            };
            assert(off == start + 256 * q);
            assert(buf.subrange(0, 256) =~= buf);
            assert(im.subrange(0, off) + buf + im.subrange(off + 256, im.len() as int) =~= img.subrange(
                0,
                start,
            ) + data.subrange(0, 256 * (q + 1)) + img.subrange(
                start + 256 * (q + 1),
                img.len() as int,
            ));
        }
    }
}

} // verus!
