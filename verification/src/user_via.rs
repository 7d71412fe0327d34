//! BBC Micro User VIA at $FE60-$FE7F: a plain 6522 whose ports go to the
//! user-port connector.
use vstd::prelude::*;
use crate::via6522::Via6522;

verus! {

pub struct UserVia {
    pub via: Via6522,
}

impl UserVia {
    pub fn new() -> (u: Self)
        ensures
            u.via.is_reset(),
    {
        UserVia { via: Via6522::new() }
    }

    pub fn read(&mut self, reg: u8) -> (value: u8)
        ensures
            value == old(self).via.read_value(reg),
            final(self).via == old(self).via.after_read(reg),
    {
        self.via.read(reg)
    }

    pub fn write(&mut self, reg: u8, value: u8)
        ensures
            final(self).via == old(self).via.after_write(reg, value),
    {
        self.via.write(reg, value);
    }

    /// Advance the timers; returns whether an interrupt is pending afterwards.
    pub fn tick(&mut self, cycles: u32) -> (irq: bool)
        ensures
            final(self).via == old(self).via.ticked(cycles),
            irq == final(self).via.pending_irq(),
    {
        self.via.tick(cycles);
        self.via.has_pending_irq()
    }

    pub fn poll_irq(&self) -> (b: bool)
        ensures
            b == self.via.pending_irq(),
    {
        self.via.has_pending_irq()
    }
}

} // verus!
