//! Address-space dispatcher: RAM and ROM through `Memory`, SHEILA
//! ($FE00-$FEFF) through `Hardware`; FRED and JIM ($FC00-$FDFF) are not
//! fitted and read $FF.
use vstd::prelude::*;
use crate::hardware::{Hardware, RomSelectWrite};
use crate::memory::{Memory, MemoryState};

verus! {

pub struct BbcBus {
    pub memory: Memory,
    pub hardware: Hardware,
}

impl BbcBus {
    pub open spec fn wf(&self) -> bool {
        self.memory.wf() && self.hardware.wf()
    }

    pub fn new(memory: Memory) -> (b: Self)
        requires
            memory.wf(),
        ensures
            b.wf(),
            b.memory@ == memory@,
            b.hardware.powered_on(),
    {
        BbcBus { memory, hardware: Hardware::new() }
    }

    /// Side-effect-free read for monitors: SHEILA and the expansion pages
    /// read $FF.
    pub fn peek(&self, addr: u16) -> (v: u8)
        requires
            self.wf(),
        ensures
            v == if 0xFC00 <= addr < 0xFF00 { 0xFF } else { self.memory@.read_value(addr) },
    {
        if addr <= 0xFBFF {
            self.memory.read(addr)
        } else if addr <= 0xFEFF {
            0xFF
        } else {
            self.memory.read(addr)
        }
    }

    /// CPU read.
    pub fn read(&mut self, addr: u16) -> (v: u8)
        requires
            old(self).wf(),
        ensures
            final(self).wf(),
            final(self).memory@ == old(self).memory@,
            addr < 0xFC00 || addr >= 0xFF00 ==> v == old(self).memory@.read_value(addr)
                && final(self).hardware == old(self).hardware,
            0xFC00 <= addr < 0xFE00 ==> v == 0xFF && final(self).hardware == old(self).hardware,
            0xFE00 <= addr < 0xFF00 ==> old(self).hardware.read_relation(
                final(self).hardware,
                addr,
                v,
            ),
    {
        if addr <= 0xFBFF {
            self.memory.read(addr)
        } else if addr <= 0xFDFF {
            0xFF
        } else if addr <= 0xFEFF {
            self.hardware.read(addr)
        } else {
            self.memory.read(addr)
        }
    }

    /// CPU write. RAM takes the byte, ROM and the expansion pages ignore
    /// it, SHEILA dispatches it; a paged-ROM latch write selects the bank.
    pub fn write(&mut self, addr: u16, value: u8)
        requires
            old(self).wf(),
        ensures
            final(self).wf(),
            addr < 0xFC00 ==> final(self).memory@ == old(self).memory@.after_write(addr, value)
                && final(self).hardware == old(self).hardware,
            0xFC00 <= addr < 0xFE00 || addr >= 0xFF00 ==> final(self).memory@ == old(self).memory@
                && final(self).hardware == old(self).hardware,
            0xFE30 <= addr < 0xFE40 ==> final(self).memory@ == (MemoryState {
                selected_bank: value % 16,
                ..old(self).memory@
            }),
            0xFE00 <= addr < 0xFF00 && !(0xFE30 <= addr < 0xFE40) ==> final(self).memory@ == old(
                self,
            ).memory@,
            0xFE00 <= addr < 0xFF00 ==> exists|r: Option<RomSelectWrite>|
                old(self).hardware.write_relation(final(self).hardware, addr, value, r),
    {
        if addr <= 0xFBFF {
            self.memory.write(addr, value);
        } else if addr <= 0xFDFF {
        } else if addr <= 0xFEFF {
            if let Some(rs) = self.hardware.write(addr, value) {
                self.memory.select_bank(rs.bank);
            }
        }
    }
}

} // verus!
