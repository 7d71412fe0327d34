//! Motorola 6850 ACIA at $FE08 (control / status) and $FE09 (transmit /
//! receive data), and the Acorn Serial ULA at $FE10.
//!
//! Control register: bits 1-0 clock divide (11 = master reset), bits 4-2
//! word select, bits 6-5 transmitter control (01 = TX interrupt enabled),
//! bit 7 receive interrupt enable.
//!
//! Status register: bit 0 RDRF, bit 1 TDRE, bit 2 /DCD, bit 3 /CTS,
//! bit 4 framing error, bit 5 overrun, bit 6 parity error, bit 7 IRQ.
use vstd::prelude::*;

verus! {

pub struct Acia6850 {
    /// Control register (last write to $FE08).
    pub control: u8,
    /// Status bits held by the chip (DCD/CTS/IRQ are added on read).
    pub status: u8,
    /// Receive data register.
    pub rdr: u8,
    /// Transmit data register.
    pub tdr: u8,
    /// True from a write of the transmit register until the transmitter
    /// has taken the byte (`poll_tx`).
    pub tx_pending: bool,
    /// Input lines /DCD and /CTS (true = asserted).
    pub dcd_asserted: bool,
    pub cts_asserted: bool,
    /// IRQ output.
    pub irq: bool,
}

/// The IRQ output for a control / status pair: receive interrupt when
/// enabled and RDRF, or transmit interrupt when enabled and TDRE.
pub open spec fn irq_line(control: u8, status: u8) -> bool {
    (control & 0x80 != 0 && status & 0x01 != 0) || ((control >> 5) & 0x03 == 1 && status & 0x02
        != 0)
}

impl Acia6850 {
    pub open spec fn status_value(self) -> u8 {
        self.status | (if self.cts_asserted { 0x08u8 } else { 0u8 }) | (if self.dcd_asserted {
            0x04u8
        } else {
            0u8
        }) | (if self.irq { 0x80u8 } else { 0u8 })
    }

    pub open spec fn with_irq_updated(self) -> Self {
        Acia6850 { irq: irq_line(self.control, self.status), ..self }
    }

    /// Even register: control (11 in bits 1-0 is a master reset). Odd
    /// register: transmit byte, pending for the transmitter; the register
    /// is ready again at once.
    pub open spec fn after_write(self, reg: u8, value: u8) -> Self {
        if reg % 2 == 0 {
            (Acia6850 {
                control: value,
                status: if value & 0x03 == 0x03 { 0x02 } else { self.status },
                ..self
            }).with_irq_updated()
        } else {
            (Acia6850 { tdr: value, tx_pending: true, status: self.status | 0x02, ..self })
                .with_irq_updated()
        }
    }

    /// After a read of register `reg`: reading the data register clears
    /// RDRF and the error bits.
    pub open spec fn after_read(self, reg: u8) -> Self {
        if reg % 2 == 1 {
            (Acia6850 { status: self.status & !0x71u8, ..self }).with_irq_updated()
        } else {
            self
        }
    }

    pub open spec fn read_value(self, reg: u8) -> u8 {
        if reg % 2 == 0 { self.status_value() } else { self.rdr }
    }

    pub fn new() -> (a: Self)
        ensures
            a.control == 0 && a.status == 0x02 && a.rdr == 0 && a.tdr == 0,
            !a.tx_pending,
            !a.dcd_asserted && !a.cts_asserted && !a.irq,
    {
        let mut a = Acia6850 {
            control: 0,
            status: 0,
            rdr: 0,
            tdr: 0,
            tx_pending: false,
            dcd_asserted: false,
            cts_asserted: false,
            irq: false,
        };
        a.master_reset();
        a
    }

    /// Master reset: status cleared except TDRE, no interrupt; the data
    /// registers are left alone.
    fn master_reset(&mut self)
        ensures
            *final(self) == (Acia6850 { status: 0x02, irq: false, ..*old(self) }),
    {
        self.status = 0x02;
        self.irq = false;
    }

    fn update_irq(&mut self)
        ensures
            *final(self) == old(self).with_irq_updated(),
    {
        let rx_irq = (self.control & 0x80 != 0) && (self.status & 0x01 != 0);
        let tx_irq = (self.control >> 5) & 0x03 == 1 && self.status & 0x02 != 0;
        self.irq = rx_irq || tx_irq;
    }

    /// Even register: status (DCD, CTS and IRQ folded in), no side effect.
    /// Odd register: the received byte; clears RDRF and the error bits.
    pub fn read(&mut self, reg: u8) -> (v: u8)
        ensures
            v == old(self).read_value(reg),
            *final(self) == old(self).after_read(reg),
    {
        assert(reg & 0x01 == reg % 2) by {
            crate::bits::lemma_byte_fields(reg);
        }
        if reg & 0x01 == 0 {
            let cts: u8 = if self.cts_asserted { 0x08 } else { 0 };
            let dcd: u8 = if self.dcd_asserted { 0x04 } else { 0 };
            let irq: u8 = if self.irq { 0x80 } else { 0 };
            self.status | cts | dcd | irq
        } else {
            let v = self.rdr;
            self.status = self.status & !0x71u8;
            self.update_irq();
            v
        }
    }

    /// Even register: control (11 in bits 1-0 is a master reset). Odd
    /// register: transmit byte, pending for the transmitter; the register
    /// is ready again at once.
    pub fn write(&mut self, reg: u8, value: u8)
        ensures
            *final(self) == old(self).after_write(reg, value),
    {
        assert(reg & 0x01 == reg % 2) by {
            crate::bits::lemma_byte_fields(reg);
        }
        if reg & 0x01 == 0 {
            if (value & 0x03) == 0x03 {
                self.master_reset();
            }
            self.control = value;
            self.update_irq();
        } else {
            self.tdr = value;
            self.tx_pending = true;
            let s = self.status;
            assert((s & !0x02u8) | 0x02 == s | 0x02) by {
            crate::bits::lemma_byte_fields(s);
        }
            self.status = self.status & !0x02u8;
            self.status = self.status | 0x02;
            self.update_irq();
        }
    }

    /// Deliver a byte from the RX line; an unread previous byte sets overrun.
    pub fn receive(&mut self, byte: u8)
        ensures
            *final(self) == (Acia6850 {
                rdr: byte,
                status: (if old(self).status & 0x01 != 0 {
                    old(self).status | 0x20
                } else {
                    old(self).status
                }) | 0x01,
                ..*old(self)
            }).with_irq_updated(),
    {
        if self.status & 0x01 != 0 {
            self.status = self.status | 0x20;
        }
        self.rdr = byte;
        self.status = self.status | 0x01;
        self.update_irq();
    }

    /// The byte for the transmitter: each byte written to the transmit
    /// register is handed over once, as the chip's shift register takes
    /// it; `None` when no byte is waiting.
    pub fn poll_tx(&mut self) -> (b: Option<u8>)
        ensures
            b == (if old(self).tx_pending { Some(old(self).tdr) } else { None }),
            *final(self) == (Acia6850 { tx_pending: false, ..*old(self) }),
    {
        if self.tx_pending {
            self.tx_pending = false;
            Some(self.tdr)
        } else {
            None
        }
    }

    pub fn poll_irq(&self) -> (b: bool)
        ensures
            b == self.irq,
    {
        self.irq
    }
}

/// Serial ULA control register (write-only): bit 7 motor relay, bit 6
/// cassette (1) / RS-423 (0), bits 5-3 receive rate, bits 2-0 transmit rate.
pub struct SerialUla {
    pub control: u8,
}

/// Baud rate for a three-bit rate code.
pub open spec fn baud_for_code(code: u8) -> u32 {
    let c = code % 8;
    if c == 0 {
        19200
    } else if c == 1 {
        1200
    } else if c == 2 {
        4800
    } else if c == 3 {
        150
    } else if c == 4 {
        9600
    } else if c == 5 {
        300
    } else if c == 6 {
        2400
    } else {
        75
    }
}

impl SerialUla {
    pub fn new() -> (u: Self)
        ensures
            u.control == 0,
    {
        SerialUla { control: 0 }
    }

    pub fn write(&mut self, value: u8)
        ensures
            final(self).control == value,
    {
        self.control = value;
    }

    pub fn motor_on(&self) -> (b: bool)
        ensures
            b == (self.control >= 0x80),
    {
        let c = self.control;
        assert((c & 0x80 != 0) == (c >= 0x80)) by {
            crate::bits::lemma_byte_fields(c);
        }
        self.control & 0x80 != 0
    }

    pub fn cassette_selected(&self) -> (b: bool)
        ensures
            b == ((self.control / 64) % 2 == 1),
    {
        let c = self.control;
        assert((c & 0x40 != 0) == ((c / 64) % 2 == 1)) by {
            crate::bits::lemma_byte_fields(c);
        }
        self.control & 0x40 != 0
    }

    fn baud(code: u8) -> (b: u32)
        ensures
            b == baud_for_code(code),
    {
        assert(code & 0x07 == code % 8) by {
            crate::bits::lemma_byte_fields(code);
        }
        let c = code & 0x07;
        if c == 0 {
            19200
        } else if c == 1 {
            1200
        } else if c == 2 {
            4800
        } else if c == 3 {
            150
        } else if c == 4 {
            9600
        } else if c == 5 {
            300
        } else if c == 6 {
            2400
        } else {
            75
        }
    }

    /// Receive rate from bits 5-3.
    pub fn rx_baud(&self) -> (b: u32)
        ensures
            b == baud_for_code(self.control / 8),
            b == seq![19200u32, 1200, 4800, 150, 9600, 300, 2400, 75][((self.control >> 3)
                & 7) as int],
    {
        let c = self.control;
        assert(c >> 3 == c / 8 && (c >> 3) & 7 == (c / 8) % 8) by {
            crate::bits::lemma_byte_fields(c);
        }
        Self::baud(self.control >> 3)
    }

    /// Transmit rate from bits 2-0.
    pub fn tx_baud(&self) -> (b: u32)
        ensures
            b == baud_for_code(self.control),
            b == seq![19200u32, 1200, 4800, 150, 9600, 300, 2400, 75][(self.control & 7) as int],
    {
        let c = self.control;
        assert(c & 7 == c % 8) by {
            crate::bits::lemma_byte_fields(c);
        }
        Self::baud(self.control)
    }
}

} // verus!
