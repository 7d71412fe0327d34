//! Memory map: 32 KiB RAM at $0000-$7FFF, one of 16 paged ("sideways") ROM
//! banks at $8000-$BFFF (selected through $FE30), and the 16 KiB MOS ROM at
//! $C000-$FFFF. Writes to ROM are ignored.
use vstd::prelude::*;
use crate::text::{append_decimal, decimal};

verus! {

pub const RAM_SIZE: usize = 0x8000;
pub const ROM_BANK_SIZE: usize = 0x4000;
pub const MOS_ROM_SIZE: usize = 0x4000;
pub const MAX_ROM_BANKS: usize = 16;
pub const SIDEWAYS_BASE: u16 = 0x8000;
pub const MOS_BASE: u16 = 0xC000;

#[derive(Debug)]
pub enum RomLoadError {
    /// A ROM file could not be read (`message` describes the failure).
    Io { path: String, message: String },
    BadSize { path: String, expected: usize, actual: usize },
    BankOutOfRange { bank: u8 },
}

/// Text of a ROM read failure.
pub open spec fn io_error_text(path: Seq<char>, message: Seq<char>) -> Seq<char> {
    "cannot read ROM `"@ + path + "`: "@ + message
}

/// Text of a ROM image of the wrong size.
pub open spec fn bad_size_text(path: Seq<char>, expected: usize, actual: usize) -> Seq<char> {
    "ROM `"@ + path + "` has unexpected size: expected "@ + decimal(expected as nat)
        + " bytes, got "@ + decimal(actual as nat)
}

/// Text of a bank number beyond the sixteen slots.
pub open spec fn bank_range_text(bank: u8) -> Seq<char> {
    "sideways ROM bank "@ + decimal(bank as nat) + " is out of range (max 15)"@
}

fn format_io_error(path: &String, message: &String) -> (s: String)
    ensures
        s@ == io_error_text(path@, message@),
{
    let mut s = "cannot read ROM `".to_owned();
    s.append(path.as_str());
    s.append("`: ");
    s.append(message.as_str());
    s
}

fn format_bad_size(path: &String, expected: usize, actual: usize) -> (s: String)
    ensures
        s@ == bad_size_text(path@, expected, actual),
{
    let mut s = "ROM `".to_owned();
    s.append(path.as_str());
    s.append("` has unexpected size: expected ");
    append_decimal(&mut s, expected as u64);
    s.append(" bytes, got ");
    append_decimal(&mut s, actual as u64);
    s
}

fn format_bank_range(bank: u8) -> (s: String)
    ensures
        s@ == bank_range_text(bank),
{
    let mut s = "sideways ROM bank ".to_owned();
    append_decimal(&mut s, bank as u64);
    s.append(" is out of range (max 15)");
    s
}

impl RomLoadError {
    /// Text of the error.
    pub open spec fn message_text(&self) -> Seq<char> {
        match self {
            RomLoadError::Io { path, message } => io_error_text(path@, message@),
            RomLoadError::BadSize { path, expected, actual } => bad_size_text(
                path@,
                *expected,
                *actual,
            ),
            RomLoadError::BankOutOfRange { bank } => bank_range_text(*bank),
        }
    }

    /// Human-readable description.
    pub fn message(&self) -> (s: String)
        ensures
            s@ == self.message_text(),
    {
        match self {
            RomLoadError::Io { path, message } => format_io_error(path, message),
            RomLoadError::BadSize { path, expected, actual } => format_bad_size(
                path,
                *expected,
                *actual,
            ),
            RomLoadError::BankOutOfRange { bank } => format_bank_range(*bank),
        }
    }
}

/// Label used for ROM images supplied as bytes rather than read from a file.
pub open spec fn inline_label() -> Seq<char> {
    "<inline>"@
}

/// Label used for a MOS image supplied as bytes.
pub open spec fn mos_inline_label() -> Seq<char> {
    "<mos:inline>"@
}

/// Contents of a 16 KiB bank built from a ROM image of `len` bytes: the
/// image repeated (a 16 KiB image once, 8 KiB twice, 4 KiB four times).
pub open spec fn mirrored(image: Seq<u8>) -> Seq<u8> {
    Seq::new(0x4000, |i: int| image[i % (image.len() as int)])
}

/// ROM image sizes a bank accepts.
pub open spec fn acceptable_rom_size(len: nat) -> bool {
    len == 0x4000 || len == 0x2000 || len == 0x1000
}

/// A paged-ROM slot of the configuration is empty or holds an acceptable
/// image.
pub open spec fn bank_image_ok(slot: Option<Vec<u8>>) -> bool {
    match slot {
        Some(b) => acceptable_rom_size(b@.len()),
        None => true,
    }
}

/// One 16 KiB paged-ROM slot; an empty slot reads $FF (open bus).
pub struct RomBank {
    data: Option<Vec<u8>>,
}

impl RomBank {
    #[verifier::type_invariant]
    spec fn inv(self) -> bool {
        match self.data {
            Some(v) => v@.len() == 0x4000,
            None => true,
        }
    }

    /// The bank's 16 KiB, or `None` for an empty slot.
    pub closed spec fn contents(self) -> Option<Seq<u8>> {
        match self.data {
            Some(v) => Some(v@),
            None => None,
        }
    }

    pub fn empty() -> (b: Self)
        ensures
            b.contents() is None,
    {
        RomBank { data: None }
    }

    /// A bank from a 16, 8 or 4 KiB image (smaller images are mirrored);
    /// other sizes are refused.
    pub fn from_bytes(bytes: &[u8]) -> (r: Result<Self, RomLoadError>)
        ensures
            acceptable_rom_size(bytes@.len()) ==> r is Ok && r.unwrap().contents() == Some(
                mirrored(bytes@),
            ),
            !acceptable_rom_size(bytes@.len()) ==> (r matches Err(
                RomLoadError::BadSize { path, expected, actual },
            ) && path@ == inline_label() && expected == 0x4000 && actual == bytes@.len()),
    {
        Self::from_bytes_at(bytes, "<inline>".to_owned())
    }

    /// As `from_bytes`, naming the image `path` in the error.
    pub fn from_bytes_at(bytes: &[u8], path: String) -> (r: Result<Self, RomLoadError>)
        ensures
            acceptable_rom_size(bytes@.len()) ==> r is Ok && r.unwrap().contents() == Some(
                mirrored(bytes@),
            ),
            !acceptable_rom_size(bytes@.len()) ==> (r matches Err(
                RomLoadError::BadSize { path: p, expected, actual },
            ) && p@ == path@ && expected == 0x4000 && actual == bytes@.len()),
    {
        let len = bytes.len();
        if len != ROM_BANK_SIZE && len != 0x2000 && len != 0x1000 {
            return Err(RomLoadError::BadSize { path, expected: ROM_BANK_SIZE, actual: len });
        }
        let mut buf: Vec<u8> = Vec::with_capacity(ROM_BANK_SIZE);
        let mut i: usize = 0;
        while i < ROM_BANK_SIZE
            invariant
                i <= 0x4000,
                len == bytes@.len(),
                acceptable_rom_size(len as nat),
                buf@.len() == i,
                forall|j: int| 0 <= j < i ==> buf@[j] == bytes@[j % (len as int)],
            decreases ROM_BANK_SIZE - i,
        {
            buf.push(bytes[i % len]);
            i = i + 1;
        }
        assert(buf@ =~= mirrored(bytes@));
        Ok(RomBank { data: Some(buf) })
    }

    /// Byte at `offset` within the bank; $FF for an empty slot.
    pub fn read(&self, offset: u16) -> (v: u8)
        requires
            self.contents() is Some ==> offset < 0x4000,
        ensures
            v == match self.contents() {
                Some(c) => c[offset as int],
                None => 0xFF,
            },
    {
        proof {
            use_type_invariant(self);
        }
        match &self.data {
            Some(buf) => buf[offset as usize],
            None => 0xFF,
        }
    }

    pub fn is_present(&self) -> (b: bool)
        ensures
            b == self.contents() is Some,
    {
        self.data.is_some()
    }
}

/// What the memory map is built from: the MOS image, the paged-ROM images
/// by bank, and the bank selected at power-up.
pub struct MemoryConfig {
    pub mos_rom_bytes: Option<Vec<u8>>,
    pub rom_banks: [Option<Vec<u8>>; 16],
    pub initial_bank: u8,
}

impl Default for MemoryConfig {
    fn default() -> (c: Self)
        ensures
            c.mos_rom_bytes is None,
            forall|i: int| 0 <= i < 16 ==> c.rom_banks@[i] is None,
            c.initial_bank == 0,
    {
        MemoryConfig {
            mos_rom_bytes: None,
            rom_banks: [None, None, None, None, None, None, None, None, None, None, None, None, None, None, None, None],
            initial_bank: 0,
        }
    }
}

pub ghost struct MemoryState {
    pub ram: Seq<u8>,
    pub mos: Seq<u8>,
    pub banks: Seq<Option<Seq<u8>>>,
    pub selected_bank: u8,
}

impl MemoryState {
    pub open spec fn wf(self) -> bool {
        &&& self.ram.len() == 0x8000
        &&& self.mos.len() == 0x4000
        &&& self.banks.len() == 16
        &&& self.selected_bank < 16
        &&& forall|i: int|
            0 <= i < 16 ==> match #[trigger] self.banks[i] {
                Some(b) => b.len() == 0x4000,
                None => true,
            }
    }

    /// The byte the CPU reads at `addr`.
    pub open spec fn read_value(self, addr: u16) -> u8 {
        if addr < 0x8000 {
            self.ram[addr as int]
        } else if addr < 0xC000 {
            match self.banks[self.selected_bank as int] {
                Some(b) => b[addr - 0x8000],
                None => 0xFF,
            }
        } else {
            self.mos[addr - 0xC000]
        }
    }

    /// The state after the CPU writes `value` at `addr`: RAM changes, ROM
    /// does not.
    pub open spec fn after_write(self, addr: u16, value: u8) -> Self {
        if addr < 0x8000 {
            MemoryState { ram: self.ram.update(addr as int, value), ..self }
        } else {
            self
        }
    }
}

pub struct Memory {
    ram: Vec<u8>,
    mos: Vec<u8>,
    banks: Vec<RomBank>,
    selected_bank: u8,
}

impl View for Memory {
    type V = MemoryState;

    closed spec fn view(&self) -> MemoryState {
        MemoryState {
            ram: self.ram@,
            mos: self.mos@,
            banks: Seq::new(16, |i: int| self.banks@[i].contents()),
            selected_bank: self.selected_bank,
        }
    }
}

/// Reading an address returns the last value written there when it is RAM.
pub proof fn lemma_ram_read_after_write(m: MemoryState, addr: u16, value: u8, other: u16)
    requires
        m.wf(),
        addr < 0x8000,
    ensures
        m.after_write(addr, value).read_value(addr) == value,
        other != addr ==> m.after_write(addr, value).read_value(other) == m.read_value(other),
        m.after_write(addr, value).wf(),
{
}

/// Writes to the ROM half of the address space change nothing.
pub proof fn lemma_rom_writes_ignored(m: MemoryState, addr: u16, value: u8)
    requires
        addr >= 0x8000,
    ensures
        m.after_write(addr, value) == m,
{
}

impl Memory {
    /// The memory map's shape: 32 KiB RAM, 16 KiB MOS, 16 banks of 16 KiB.
    pub closed spec fn wf(&self) -> bool {
        &&& self.ram@.len() == 0x8000
        &&& self.mos@.len() == 0x4000
        &&& self.banks@.len() == 16
        &&& self.selected_bank < 16
        &&& forall|i: int|
            0 <= i < 16 ==> match #[trigger] self.banks@[i].contents() {
                Some(b) => b.len() == 0x4000,
                None => true,
            }
    }

    pub proof fn lemma_wf(m: Memory)
        requires
            m.wf(),
        ensures
            m@.wf(),
    {
        assert forall|i: int| 0 <= i < 16 implies match #[trigger] m@.banks[i] {
            Some(b) => b.len() == 0x4000,
            None => true,
        } by {
            assert(m@.banks[i] == m.banks@[i].contents());
        }
    }

    /// Build the memory map. RAM powers up as $FF; without a MOS image the
    /// MOS area reads $FF. The MOS image must be exactly 16 KiB and each
    /// paged ROM 16, 8 or 4 KiB (checked in bank order).
    pub fn new(config: MemoryConfig) -> (r: Result<Self, RomLoadError>)
        ensures
            match r {
                Ok(m) => {
                    &&& m.wf()
                    &&& m@.wf()
                    &&& m@.ram == Seq::new(0x8000, |i: int| 0xFFu8)
                    &&& m@.mos == match config.mos_rom_bytes {
                        Some(b) => b@,
                        None => Seq::new(0x4000, |i: int| 0xFFu8),
                    }
                    &&& forall|i: int|
                        0 <= i < 16 ==> #[trigger] m@.banks[i] == match config.rom_banks@[i] {
                            Some(b) => Some(mirrored(b@)),
                            None => None,
                        }
                    &&& m@.selected_bank == config.initial_bank % 16
                },
                Err(e) => true,
            },
            (config.mos_rom_bytes matches Some(b) && b@.len() != 0x4000) ==> (r matches Err(
                RomLoadError::BadSize { path, expected, actual },
            ) && path@ == mos_inline_label() && expected == 0x4000 && actual
                == config.mos_rom_bytes.unwrap()@.len()),
            (config.mos_rom_bytes matches Some(b) ==> b@.len() == 0x4000) ==> (r is Ok <==> forall|
                i: int,
            |
                0 <= i < 16 ==> bank_image_ok(#[trigger] config.rom_banks@[i])),
            forall|i: int|
                #![trigger bank_image_ok(config.rom_banks@[i])]
                (config.mos_rom_bytes matches Some(b) ==> b@.len() == 0x4000) && 0 <= i < 16
                    && !bank_image_ok(config.rom_banks@[i]) && (forall|j: int|
                    0 <= j < i ==> bank_image_ok(#[trigger] config.rom_banks@[j])) ==> (r matches Err(
                    RomLoadError::BadSize { path, expected, actual },
                ) && path@ == inline_label() && expected == 0x4000 && actual
                    == config.rom_banks@[i].unwrap()@.len()),
    {
        let ghost cfg = config;
        let mut slots = config;
        let mos: Vec<u8> = match slots.mos_rom_bytes.take() {
            Some(bytes) => {
                if bytes.len() != MOS_ROM_SIZE {
                    return Err(RomLoadError::BadSize { path: "<mos:inline>".to_owned(), expected: MOS_ROM_SIZE, actual: bytes.len() });
                }
                bytes
            },
            None => {
                let mut v: Vec<u8> = Vec::with_capacity(MOS_ROM_SIZE);
                let mut i: usize = 0;
                while i < MOS_ROM_SIZE
                    invariant
                        i <= 0x4000,
                        v@ == Seq::new(i as nat, |j: int| 0xFFu8),
                    decreases MOS_ROM_SIZE - i,
                {
                    v.push(0xFF);
                    i = i + 1;
                    assert(v@ =~= Seq::new(i as nat, |j: int| 0xFFu8));
                }
                v
            },
        };
        let mut banks: Vec<RomBank> = Vec::with_capacity(MAX_ROM_BANKS);
        let mut i: usize = 0;
        while i < MAX_ROM_BANKS
            invariant
                i <= 16,
                banks@.len() == i,
                cfg.mos_rom_bytes matches Some(b) ==> b@.len() == 0x4000,
                mos@ == match cfg.mos_rom_bytes {
                    Some(b) => b@,
                    None => Seq::new(0x4000, |j: int| 0xFFu8),
                },
                slots.initial_bank == cfg.initial_bank,
                cfg == config,
                forall|j: int| i <= j < 16 ==> slots.rom_banks@[j] == cfg.rom_banks@[j],
                forall|j: int|
                    0 <= j < i ==> #[trigger] banks@[j].contents() == match cfg.rom_banks@[j] {
                        Some(b) => Some(mirrored(b@)),
                        None => None,
                    },
                forall|j: int|
                    0 <= j < i ==> bank_image_ok(#[trigger] cfg.rom_banks@[j]),
            decreases MAX_ROM_BANKS - i,
        {
            let slot = slots.rom_banks[i].take();
            match slot {
                Some(bytes) => {
                    match RomBank::from_bytes(bytes.as_slice()) {
                        Ok(b) => banks.push(b),
                        Err(e) => {
                            assert(!bank_image_ok(cfg.rom_banks@[i as int]));
                            assert forall|i2: int|
                                0 <= i2 < 16 && !bank_image_ok(cfg.rom_banks@[i2]) && (forall|j: int|
                                    0 <= j < i2 ==> bank_image_ok(
                                        #[trigger] cfg.rom_banks@[j],
                                    )) implies i2 == i by {
                                if i2 < i {
                                    assert(bank_image_ok(cfg.rom_banks@[i2]));
                                } else if i2 > i {
                                    assert(bank_image_ok(cfg.rom_banks@[i as int]));
                                }
                            }
                            return Err(e);
                        },
                    }
                },
                None => banks.push(RomBank::empty()),
            }
            i = i + 1;
        }
        let mut ram: Vec<u8> = Vec::with_capacity(RAM_SIZE);
        let mut k: usize = 0;
        while k < RAM_SIZE
            invariant
                k <= 0x8000,
                ram@ == Seq::new(k as nat, |j: int| 0xFFu8),
            decreases RAM_SIZE - k,
        {
            ram.push(0xFF);
            k = k + 1;
            assert(ram@ =~= Seq::new(k as nat, |j: int| 0xFFu8));
        }
        assert(banks@.len() == 16);
        let ib = slots.initial_bank;
        assert(ib & 0x0F == ib % 16) by {
            crate::bits::lemma_byte_fields(ib);
        }
        let m = Memory { ram, mos, banks, selected_bank: slots.initial_bank & 0x0F };
        proof {
            Self::lemma_wf(m);
        }
        Ok(m)
    }

    /// Put a ROM into paged bank `bank` (0..16).
    pub fn install_bank(&mut self, bank: u8, rom: RomBank) -> (r: Result<(), RomLoadError>)
        requires
            old(self).wf(),
        ensures
            final(self).wf(),
            bank < 16 ==> r is Ok && final(self)@ == (MemoryState {
                banks: old(self)@.banks.update(bank as int, rom.contents()),
                ..old(self)@
            }),
            bank >= 16 ==> (r matches Err(RomLoadError::BankOutOfRange { bank: b }) && b == bank)
                && final(self)@ == old(self)@,
            final(self)@.wf(),
    {
        proof {
            use_type_invariant(&rom);
        }
        if bank as usize >= MAX_ROM_BANKS {
            proof {
                Self::lemma_wf(*self);
            }
            return Err(RomLoadError::BankOutOfRange { bank });
        }
        self.banks.set(bank as usize, rom);
        proof {
            Self::lemma_wf(*self);
        }
        assert(self@.banks =~= old(self)@.banks.update(bank as int, rom.contents()));
        Ok(())
    }

    /// The 32 KiB of RAM.
    pub fn ram(&self) -> (r: &[u8])
        ensures
            r@ == self@.ram,
    {
        self.ram.as_slice()
    }

    /// The 32 KiB of RAM, writable.
    pub fn ram_mut(&mut self) -> (r: &mut [u8])
        requires
            old(self).wf(),
        ensures
            final(r)@.len() == 0x8000 ==> final(self).wf(),
            r@ == old(self)@.ram,
            final(self)@ == (MemoryState { ram: final(r)@, ..old(self)@ }),
    {
        self.ram.as_mut_slice()
    }

    /// MOS ROM byte at `addr` ($C000-$FFFF).
    pub fn mos_byte(&self, addr: u16) -> (v: u8)
        requires
            self.wf(),
            addr >= 0xC000,
        ensures
            v == self@.mos[addr - 0xC000],
    {
        self.mos[(addr - MOS_BASE) as usize]
    }

    pub fn selected_bank(&self) -> (b: u8)
        ensures
            b == self@.selected_bank,
    {
        self.selected_bank
    }

    /// Select the paged ROM bank (low four bits of `bank`).
    pub fn select_bank(&mut self, bank: u8)
        requires
            old(self).wf(),
        ensures
            final(self).wf(),
            final(self)@ == (MemoryState { selected_bank: bank % 16, ..old(self)@ }),
    {
        assert(bank & 0x0F == bank % 16) by {
            crate::bits::lemma_byte_fields(bank);
        }
        self.selected_bank = bank & 0x0F;
    }

    pub fn bank_is_present(&self, bank: u8) -> (b: bool)
        requires
            self.wf(),
        ensures
            b == (bank < 16 && self@.banks[bank as int] is Some),
    {
        (bank as usize) < MAX_ROM_BANKS && self.banks[bank as usize].is_present()
    }

    /// CPU read at `addr` (no side effects).
    pub fn read(&self, addr: u16) -> (v: u8)
        requires
            self.wf(),
        ensures
            v == self@.read_value(addr),
    {
        if addr < 0x8000 {
            self.ram[addr as usize]
        } else if addr < 0xC000 {
            self.banks[self.selected_bank as usize].read(addr - SIDEWAYS_BASE)
        } else {
            self.mos[(addr - MOS_BASE) as usize]
        }
    }

    /// CPU write at `addr`; writes to ROM are dropped.
    pub fn write(&mut self, addr: u16, value: u8)
        requires
            old(self).wf(),
        ensures
            final(self).wf(),
            final(self)@ == old(self)@.after_write(addr, value),
    {
        if (addr as usize) < RAM_SIZE {
            self.ram.set(addr as usize, value);
        }
    }
}

} // verus!
