//! SHEILA $FE00-$FEFF: which memory-mapped device answers at an address.
//!
//! Each block is 32 bytes wide; unused address bits are not decoded, so the
//! System VIA at $FE40-$FE4F is mirrored at $FE50-$FE5F.
use vstd::prelude::*;

verus! {

#[derive(Debug, Clone, Copy, PartialEq, Eq, Structural)]
pub enum SheilaDevice {
    Crtc,
    Acia,
    SerialUla,
    VideoUla,
    RomSelect,
    SystemVia,
    UserVia,
    Fdc,
    Econet,
    Adc,
    Tube,
}

/// The device selected by the low byte of a SHEILA address.
pub open spec fn device_for_low_byte(low: u8) -> SheilaDevice {
    if low <= 0x07 {
        SheilaDevice::Crtc
    } else if low <= 0x0F {
        SheilaDevice::Acia
    } else if low <= 0x1F {
        SheilaDevice::SerialUla
    } else if low <= 0x2F {
        SheilaDevice::VideoUla
    } else if low <= 0x3F {
        SheilaDevice::RomSelect
    } else if low <= 0x5F {
        SheilaDevice::SystemVia
    } else if low <= 0x7F {
        SheilaDevice::UserVia
    } else if low <= 0x9F {
        SheilaDevice::Fdc
    } else if low <= 0xBF {
        SheilaDevice::Econet
    } else if low <= 0xDF {
        SheilaDevice::Adc
    } else {
        SheilaDevice::Tube
    }
}

/// Index of a device in the per-device access log (declaration order).
pub open spec fn device_index(dev: SheilaDevice) -> int {
    match dev {
        SheilaDevice::Crtc => 0,
        SheilaDevice::Acia => 1,
        SheilaDevice::SerialUla => 2,
        SheilaDevice::VideoUla => 3,
        SheilaDevice::RomSelect => 4,
        SheilaDevice::SystemVia => 5,
        SheilaDevice::UserVia => 6,
        SheilaDevice::Fdc => 7,
        SheilaDevice::Econet => 8,
        SheilaDevice::Adc => 9,
        SheilaDevice::Tube => 10,
    }
}

impl SheilaDevice {
    /// Decode a SHEILA address; only its low byte matters.
    pub fn from_addr(addr: u16) -> (dev: Self)
        ensures
            dev == device_for_low_byte((addr % 256) as u8),
    {
        let low = (addr & 0xFF) as u8;
        assert(addr & 0xFF == addr % 256) by {
            crate::bits::lemma_word_fields(addr);
        }
        if low <= 0x07 {
            SheilaDevice::Crtc
        } else if low <= 0x0F {
            SheilaDevice::Acia
        } else if low <= 0x1F {
            SheilaDevice::SerialUla
        } else if low <= 0x2F {
            SheilaDevice::VideoUla
        } else if low <= 0x3F {
            SheilaDevice::RomSelect
        } else if low <= 0x5F {
            SheilaDevice::SystemVia
        } else if low <= 0x7F {
            SheilaDevice::UserVia
        } else if low <= 0x9F {
            SheilaDevice::Fdc
        } else if low <= 0xBF {
            SheilaDevice::Econet
        } else if low <= 0xDF {
            SheilaDevice::Adc
        } else {
            SheilaDevice::Tube
        }
    }

    /// Position of this device in the access log.
    pub fn log_index(self) -> (i: usize)
        ensures
            i == device_index(self),
            i < 11,
    {
        match self {
            SheilaDevice::Crtc => 0,
            SheilaDevice::Acia => 1,
            SheilaDevice::SerialUla => 2,
            SheilaDevice::VideoUla => 3,
            SheilaDevice::RomSelect => 4,
            SheilaDevice::SystemVia => 5,
            SheilaDevice::UserVia => 6,
            SheilaDevice::Fdc => 7,
            SheilaDevice::Econet => 8,
            SheilaDevice::Adc => 9,
            SheilaDevice::Tube => 10,
        }
    }
}

} // verus!
