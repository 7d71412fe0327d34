//! BBC Micro Model B hardware model: SHEILA address decoding and the
//! memory-mapped peripherals (VIAs, CRTC, Video ULA, FDC, ADC, ACIA, sound).
pub mod bits;
pub mod text;
pub mod le;
pub mod acia6850;
pub mod bus;
pub mod crtc;
pub mod fdc8271;
pub mod hardware;
pub mod memory;
pub mod renderer;
pub mod sheila;
pub mod sn76489;
pub mod upd7002;
pub mod user_via;
pub mod video_ula;
pub mod via6522;
pub mod system_via;
pub mod tube;
pub mod machine;
pub mod snapshot;

pub use sheila::SheilaDevice;
pub use via6522::Via6522;
pub use system_via::{BbcKey, SystemVia};
pub use acia6850::{Acia6850, SerialUla};
pub use upd7002::UpD7002;
pub use user_via::UserVia;
pub use video_ula::VideoUla;
pub use crtc::{Crtc6845, CrtcEvents};
pub use sn76489::Sn76489;
pub use memory::{Memory, MemoryConfig, RomBank, RomLoadError};
pub use fdc8271::Fdc8271;
pub use bus::BbcBus;
pub use hardware::{AccessLog, Hardware};
pub use renderer::{Framebuffer, Renderer, SCREEN_H, SCREEN_W};
pub use machine::{Machine, MachineConfig, MachineError};
