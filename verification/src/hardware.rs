//! The SHEILA-mapped peripherals together, with a per-device access log.
use vstd::prelude::*;
use crate::acia6850::{Acia6850, SerialUla};
use crate::crtc::Crtc6845;
use crate::fdc8271::Fdc8271;
use crate::sheila::{SheilaDevice, device_for_low_byte, device_index};
use crate::sn76489::Sn76489;
use crate::system_via::SystemVia;
use crate::upd7002::UpD7002;
use crate::user_via::UserVia;
use crate::video_ula::VideoUla;
use crate::text::{append_decimal, decimal};

verus! {

#[derive(Clone, Copy, Debug)]
pub struct AccessLog {
    pub reads: u32,
    pub writes: u32,
    pub last_read_addr: u16,
    pub last_write_addr: u16,
    pub last_write_value: u8,
}

/// Returned by `Hardware::write` when the CPU wrote the paged-ROM latch, so
/// the bus can switch the sideways bank.
pub struct RomSelectWrite {
    pub bank: u8,
}

pub struct Hardware {
    pub log: [AccessLog; 11],
    pub crtc: Crtc6845,
    pub video_ula: VideoUla,
    pub system_via: SystemVia,
    pub user_via: UserVia,
    pub fdc: Fdc8271,
    pub sound: Sn76489,
    pub acia: Acia6850,
    pub serial_ula: SerialUla,
    pub adc: UpD7002,
}

/// Counter increment that stops at the maximum.
pub open spec fn bumped(n: u32) -> u32 {
    if n == u32::MAX { n } else { (n + 1) as u32 }
}

/// One summary entry: "<label> r=<reads> w=<writes>".
pub open spec fn entry_text(label: Seq<char>, reads: u32, writes: u32) -> Seq<char> {
    label + " r="@ + decimal(reads as nat) + " w="@ + decimal(writes as nat)
}

/// Entries joined with ", ".
pub open spec fn joined(parts: Seq<Seq<char>>) -> Seq<char>
    decreases parts.len(),
{
    if parts.len() == 0 {
        Seq::empty()
    } else if parts.len() == 1 {
        parts[0]
    } else {
        joined(parts.drop_last()) + ", "@ + parts.last()
    }
}

fn format_entry(label: &str, reads: u32, writes: u32) -> (s: String)
    ensures
        s@ == entry_text(label@, reads, writes),
{
    let mut s = label.to_owned();
    s.append(" r=");
    append_decimal(&mut s, reads as u64);
    s.append(" w=");
    append_decimal(&mut s, writes as u64);
    s
}

/// The entries joined with ", ".
fn join_entries(parts: &[String]) -> (s: String)
    ensures
        s@ == joined(parts@.map_values(|p: String| p@)),
{
    let mut s = String::new();
    let mut i: usize = 0;
    while i < parts.len()
        invariant
            i <= parts@.len(),
            s@ == joined(parts@.take(i as int).map_values(|p: String| p@)),
        decreases parts@.len() - i,
    {
        let ghost before = parts@.take(i as int).map_values(|p: String| p@);
        if i > 0 {
            s.append(", ");
        }
        s.append(parts[i].as_str());
        proof {
            let after = parts@.take(i + 1).map_values(|p: String| p@);
            assert(after.drop_last() =~= before);
            assert(after.last() == parts@[i as int]@);
        }
        i = i + 1;
    }
    assert(parts@.take(parts@.len() as int) =~= parts@);
    s
}

/// Short names of the devices in log order.
pub open spec fn device_label(i: int) -> Seq<char> {
    if i == 0 {
        "CRTC"@
    } else if i == 1 {
        "ACIA"@
    } else if i == 2 {
        "SerULA"@
    } else if i == 3 {
        "VidULA"@
    } else if i == 4 {
        "ROMSel"@
    } else if i == 5 {
        "SysVIA"@
    } else if i == 6 {
        "UsrVIA"@
    } else if i == 7 {
        "FDC"@
    } else if i == 8 {
        "Econet"@
    } else if i == 9 {
        "ADC"@
    } else {
        "Tube"@
    }
}

fn label_of(i: usize) -> (s: &'static str)
    requires
        i < 11,
    ensures
        s@ == device_label(i as int),
{
    if i == 0 {
        "CRTC"
    } else if i == 1 {
        "ACIA"
    } else if i == 2 {
        "SerULA"
    } else if i == 3 {
        "VidULA"
    } else if i == 4 {
        "ROMSel"
    } else if i == 5 {
        "SysVIA"
    } else if i == 6 {
        "UsrVIA"
    } else if i == 7 {
        "FDC"
    } else if i == 8 {
        "Econet"
    } else if i == 9 {
        "ADC"
    } else {
        "Tube"
    }
}

/// Summary entries of the devices (among the first `n`) that were accessed.
pub open spec fn summary_entries(log: Seq<AccessLog>, n: nat) -> Seq<Seq<char>>
    decreases n,
{
    if n == 0 {
        Seq::empty()
    } else {
        let prev = summary_entries(log, (n - 1) as nat);
        let e = log[n - 1];
        if e.reads != 0 || e.writes != 0 {
            prev.push(entry_text(device_label(n - 1), e.reads, e.writes))
        } else {
            prev
        }
    }
}

impl Hardware {
    pub open spec fn wf(&self) -> bool {
        self.fdc.wf() && self.sound.wf()
    }

    /// The device state `next` and value `v` a CPU read of SHEILA address
    /// `addr` produces.
    pub open spec fn read_relation(self, next: Self, addr: u16, v: u8) -> bool {
        let reg = (addr % 256) as u8;
        let dev = device_for_low_byte(reg);
        let i = device_index(dev);
        &&& next.log@ == self.log@.update(
            i,
            AccessLog {
                reads: bumped(self.log@[i].reads),
                last_read_addr: addr,
                ..self.log@[i]
            },
        )
        &&& v == match dev {
            SheilaDevice::Crtc => self.crtc.read_value(addr),
            SheilaDevice::SystemVia => self.system_via.via_with_pa7().read_value(reg),
            SheilaDevice::UserVia => self.user_via.via.read_value(reg),
            SheilaDevice::Fdc => self.fdc@.read_value(reg),
            SheilaDevice::Acia => self.acia.read_value(reg),
            SheilaDevice::Adc => self.adc.read_value(reg),
            SheilaDevice::Tube => 0,
            _ => 0xFF,
        }
        &&& next.crtc == self.crtc
        &&& next.video_ula == self.video_ula
        &&& next.sound == self.sound
        &&& next.serial_ula == self.serial_ula
        &&& next.adc == self.adc
        &&& if dev == SheilaDevice::SystemVia {
            &&& next.system_via.via == self.system_via.via_with_pa7().after_read(reg)
            &&& next.system_via == (SystemVia { via: next.system_via.via, ..self.system_via })
        } else {
            next.system_via == self.system_via
        }
        &&& next.user_via.via == if dev == SheilaDevice::UserVia {
            self.user_via.via.after_read(reg)
        } else {
            self.user_via.via
        }
        &&& next.fdc@ == if dev == SheilaDevice::Fdc {
            self.fdc@.after_read(reg)
        } else {
            self.fdc@
        }
        &&& next.acia == if dev == SheilaDevice::Acia {
            self.acia.after_read(reg)
        } else {
            self.acia
        }
    }

    /// The device state `next` and latch request `r` a CPU write of
    /// `value` to SHEILA address `addr` produces.
    pub open spec fn write_relation(
        self,
        next: Self,
        addr: u16,
        value: u8,
        r: Option<RomSelectWrite>,
    ) -> bool {
        let reg = (addr % 256) as u8;
        let dev = device_for_low_byte(reg);
        let i = device_index(dev);
        let sv = self.system_via.after_write(reg, value);
        let we_rise = self.system_via.ic32 & 1 == 0 && sv.ic32 & 1 != 0;
        &&& next.log@ == self.log@.update(
            i,
            AccessLog {
                writes: bumped(self.log@[i].writes),
                last_write_addr: addr,
                last_write_value: value,
                ..self.log@[i]
            },
        )
        &&& (r matches Some(w) ==> dev == SheilaDevice::RomSelect && w.bank == value % 16)
        &&& (dev == SheilaDevice::RomSelect ==> r is Some)
        &&& if dev == SheilaDevice::Crtc {
            self.crtc.written(next.crtc, addr, value)
        } else {
            next.crtc == self.crtc
        }
        &&& next.system_via == if dev == SheilaDevice::SystemVia {
            sv
        } else {
            self.system_via
        }
        &&& if dev == SheilaDevice::VideoUla {
            self.video_ula.written(next.video_ula, addr, value)
        } else {
            next.video_ula == if dev == SheilaDevice::SystemVia {
                VideoUla { screen_size_code: sv.size_code(), ..self.video_ula }
            } else {
                self.video_ula
            }
        }
        &&& next.sound == if dev == SheilaDevice::SystemVia && we_rise {
            self.sound.after_write(sv.sound_latch)
        } else {
            self.sound
        }
        &&& next.user_via.via == if dev == SheilaDevice::UserVia {
            self.user_via.via.after_write(reg, value)
        } else {
            self.user_via.via
        }
        &&& next.fdc@ == if dev == SheilaDevice::Fdc {
            self.fdc@.after_write(reg, value)
        } else {
            self.fdc@
        }
        &&& next.acia == if dev == SheilaDevice::Acia {
            self.acia.after_write(reg, value)
        } else {
            self.acia
        }
        &&& next.serial_ula.control == if dev == SheilaDevice::SerialUla {
            value
        } else {
            self.serial_ula.control
        }
        &&& next.adc == if dev == SheilaDevice::Adc {
            self.adc.after_write(reg, value)
        } else {
            self.adc
        }
    }

    /// Power-on state: nothing logged, CRTC and Video ULA registers clear,
    /// both VIAs reset, IC32 clear and no key down, no disc in either drive
    /// and the FDC idle, the sound channels silent, the ACIA with only
    /// TDRE set, the ADC idle with its inputs centred at zero.
    pub open spec fn powered_on(self) -> bool {
        &&& self.wf()
        &&& forall|i: int|
            0 <= i < 11 ==> #[trigger] self.log@[i] == (AccessLog {
                reads: 0,
                writes: 0,
                last_read_addr: 0,
                last_write_addr: 0,
                last_write_value: 0,
            })
        &&& self.crtc.regs@ == Seq::new(18, |i: int| 0u8)
        &&& self.crtc.scanline_in_frame == 0 && self.crtc.cycle_in_scanline == 0
        &&& self.video_ula.control == 0 && self.video_ula.screen_size_code == 0
        &&& self.video_ula.palette@ == Seq::new(16, |i: int| 0u8)
        &&& self.system_via.via.is_reset() && self.system_via.ic32 == 0
        &&& self.system_via.keys@ == Seq::new(10, |i: int| 0u8)
        &&& self.user_via.via.is_reset()
        &&& self.fdc@.drives[0].image is None && self.fdc@.drives[1].image is None
        &&& self.fdc@.phase == crate::fdc8271::PhaseState::Idle && !self.fdc@.nmi_pending
        &&& forall|c: int|
            0 <= c < 4 ==> #[trigger] self.sound.channels@[c].attenuation == 0x0F
                && self.sound.channels@[c].period == 1
        &&& self.acia.status == 0x02 && !self.acia.irq
        &&& self.serial_ula.control == 0
        &&& !self.adc.busy && self.adc.inputs@ == Seq::new(4, |i: int| 0i16)
    }

    pub fn new() -> (h: Self)
        ensures
            h.powered_on(),
    {
        let empty = AccessLog {
            reads: 0,
            writes: 0,
            last_read_addr: 0,
            last_write_addr: 0,
            last_write_value: 0,
        };
        Hardware {
            log: [empty; 11],
            crtc: Crtc6845::new(),
            video_ula: VideoUla::new(),
            system_via: SystemVia::new(),
            user_via: UserVia::new(),
            fdc: Fdc8271::new(),
            sound: Sn76489::new(),
            acia: Acia6850::new(),
            serial_ula: SerialUla::new(),
            adc: UpD7002::new(),
        }
    }

    /// CPU read of SHEILA address `addr`, dispatched by its low byte.
    /// Write-only and absent devices read $FF; the absent Tube reads $00 so
    /// the MOS sees no Tube data waiting.
    pub fn read(&mut self, addr: u16) -> (v: u8)
        requires
            old(self).wf(),
        ensures
            final(self).wf(),
            old(self).read_relation(*final(self), addr, v),
    {
        let dev = SheilaDevice::from_addr(addr);
        let i = dev.log_index();
        let mut entry = self.log[i];
        entry.reads = entry.reads.saturating_add(1);
        entry.last_read_addr = addr;
        self.log[i] = entry;
        let reg = (addr & 0xFF) as u8;
        assert(addr & 0xFF == addr % 256) by {
            crate::bits::lemma_word_fields(addr);
        }
        match dev {
            SheilaDevice::Crtc => self.crtc.read(addr),
            SheilaDevice::VideoUla => self.video_ula.read(addr),
            SheilaDevice::SystemVia => self.system_via.read(reg),
            SheilaDevice::UserVia => self.user_via.read(reg),
            SheilaDevice::Fdc => self.fdc.read(reg),
            SheilaDevice::Acia => self.acia.read(reg),
            SheilaDevice::SerialUla => 0xFF,
            SheilaDevice::Adc => self.adc.read(reg),
            SheilaDevice::Tube => 0x00,
            _ => 0xFF,
        }
    }

    /// CPU write of `value` to SHEILA address `addr`. A System VIA write
    /// also refreshes the Video ULA's screen-size code and, on the rising
    /// edge of the sound /WE, sends the latched byte to the sound chip. A
    /// write to the paged-ROM latch is returned for the bus to act on.
    pub fn write(&mut self, addr: u16, value: u8) -> (r: Option<RomSelectWrite>)
        requires
            old(self).wf(),
        ensures
            final(self).wf(),
            old(self).write_relation(*final(self), addr, value, r),
    {
        let dev = SheilaDevice::from_addr(addr);
        let i = dev.log_index();
        let mut entry = self.log[i];
        entry.writes = entry.writes.saturating_add(1);
        entry.last_write_addr = addr;
        entry.last_write_value = value;
        self.log[i] = entry;
        let reg = (addr & 0xFF) as u8;
        assert(addr & 0xFF == addr % 256) by {
            crate::bits::lemma_word_fields(addr);
        }
        match dev {
            SheilaDevice::Crtc => self.crtc.write(addr, value),
            SheilaDevice::VideoUla => self.video_ula.write(addr, value),
            SheilaDevice::SystemVia => {
                let prev_we = self.system_via.ic32 & 0x01 != 0;
                self.system_via.write(reg, value);
                self.video_ula.screen_size_code = self.system_via.screen_size_code();
                let new_we = self.system_via.ic32 & 0x01 != 0;
                if !prev_we && new_we {
                    self.sound.write(self.system_via.sound_latch);
                }
            },
            SheilaDevice::UserVia => self.user_via.write(reg, value),
            SheilaDevice::Fdc => self.fdc.write(reg, value),
            SheilaDevice::Acia => self.acia.write(reg, value),
            SheilaDevice::SerialUla => self.serial_ula.write(value),
            SheilaDevice::Adc => self.adc.write(reg, value),
            SheilaDevice::RomSelect => {
                assert(value & 0x0F == value % 16) by {
            crate::bits::lemma_byte_fields(value);
        }
                return Some(RomSelectWrite { bank: value & 0x0F });
            },
            _ => {},
        }
        None
    }

    /// The IRQ line: System VIA, User VIA or ACIA.
    pub fn poll_irq(&self) -> (b: bool)
        ensures
            b == (self.system_via.via.pending_irq() || self.user_via.via.pending_irq()
                || self.acia.irq),
    {
        self.system_via.poll_irq() || self.user_via.poll_irq() || self.acia.poll_irq()
    }

    /// One sample of the FDC's NMI output: true on a rising edge, which is
    /// consumed.
    pub fn poll_nmi_edge(&mut self) -> (edge: bool)
        requires
            old(self).wf(),
        ensures
            edge == old(self).fdc@.nmi_pending,
            final(self).fdc@ == (crate::fdc8271::FdcState { nmi_pending: false, ..old(self).fdc@ }),
            *final(self) == (Hardware { fdc: final(self).fdc, ..*old(self) }),
            final(self).wf(),
    {
        self.fdc.poll_nmi_edge()
    }

    /// "LABEL r=N w=M" for every device that was read or written, joined
    /// with ", ", or "(no SHEILA accesses)".
    pub fn access_summary(&self) -> (s: String)
        ensures
            ({
                let entries = summary_entries(self.log@, 11);
                s@ == if entries.len() == 0 {
                    "(no SHEILA accesses)"@
                } else {
                    joined(entries)
                }
            }),
    {
        let mut parts: Vec<String> = Vec::new();
        let mut i: usize = 0;
        while i < 11
            invariant
                i <= 11,
                parts@.map_values(|p: String| p@) == summary_entries(self.log@, i as nat),
            decreases 11 - i,
        {
            let e = self.log[i];
            if e.reads != 0 || e.writes != 0 {
                let t = format_entry(label_of(i), e.reads, e.writes);
                let ghost before = parts@;
                parts.push(t);
                assert(parts@.map_values(|p: String| p@) =~= before.map_values(|p: String| p@).push(
                    t@,
                ));
            }
            i = i + 1;
        }
        if parts.len() == 0 {
            "(no SHEILA accesses)".to_owned()
        } else {
            join_entries(parts.as_slice())
        }
    }
}

} // verus!
