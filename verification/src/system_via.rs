//! BBC Micro System VIA: a 6522 whose port B drives the IC32 addressable
//! latch and whose port A is the slow data bus shared by the keyboard, the
//! sound chip and the speech chip.
//!
//! * PB0-PB2 address one IC32 output bit and PB3 is the value written to it.
//! * IC32 bit 0 is the sound chip /WE, bit 3 the keyboard auto-scan enable,
//!   bits 4-5 the screen-size code, bits 6-7 the lock LEDs.
//! * Keyboard: 10 columns x 8 rows. PA0-PA3 select the column, PA4-PA6 the
//!   row; in manual scan PA7 reads 1 when the addressed key is down.
//! * CA1 is wired to the CRTC's VSYNC, CA2 to the keyboard "key down" line.
use vstd::prelude::*;
use crate::via6522::Via6522;

pub mod ic32;

verus! {

/// A key of the BBC Model B keyboard. Every key except `Break` sits at its
/// own (column, row) cell of the 10 x 8 scan matrix; `Break` drives /RESET.
#[derive(Debug, Clone, Copy, PartialEq, Eq, Hash, Structural)]
pub enum BbcKey {
    Shift,
    Ctrl,
    CapsLock,
    ShiftLock,
    F0,
    F1,
    F2,
    F3,
    F4,
    F5,
    F6,
    F7,
    F8,
    F9,
    K1,
    K2,
    K3,
    K4,
    K5,
    K6,
    K7,
    K8,
    K9,
    K0,
    Minus,
    Equals,
    Caret,
    Backslash,
    Left,
    Tab,
    KeyQ,
    KeyW,
    KeyE,
    KeyR,
    KeyT,
    KeyY,
    KeyU,
    KeyI,
    KeyO,
    KeyP,
    At,
    OpenBracket,
    Up,
    KeyA,
    KeyS,
    KeyD,
    KeyF,
    KeyG,
    KeyH,
    KeyJ,
    KeyK,
    KeyL,
    Semicolon,
    Colon,
    CloseBracket,
    Return,
    KeyZ,
    KeyX,
    KeyC,
    KeyV,
    KeyB,
    KeyN,
    KeyM,
    Comma,
    Period,
    Slash,
    Delete,
    Copy,
    Down,
    Right,
    Space,
    Escape,
    Break,
}

/// `(column, row)` of a key in the scan matrix (b-em encodes it as the
/// byte `(row << 4) | column`); `(255, 255)` for `Break`, which is not part
/// of the matrix.
pub open spec fn matrix_cell(k: BbcKey) -> (u8, u8) {
    match k {
        BbcKey::Shift => (0u8, 0u8),
        BbcKey::Ctrl => (1u8, 0u8),
        BbcKey::F4 => (4u8, 1u8),
        BbcKey::F0 => (0u8, 2u8),
        BbcKey::F1 => (1u8, 7u8),
        BbcKey::F2 => (2u8, 7u8),
        BbcKey::F3 => (3u8, 7u8),
        BbcKey::F5 => (4u8, 7u8),
        BbcKey::F6 => (5u8, 7u8),
        BbcKey::F7 => (6u8, 1u8),
        BbcKey::F8 => (6u8, 7u8),
        BbcKey::F9 => (7u8, 7u8),
        BbcKey::K1 => (0u8, 3u8),
        BbcKey::K2 => (1u8, 3u8),
        BbcKey::K3 => (1u8, 1u8),
        BbcKey::K4 => (2u8, 1u8),
        BbcKey::K5 => (3u8, 1u8),
        BbcKey::K6 => (4u8, 3u8),
        BbcKey::K7 => (4u8, 2u8),
        BbcKey::K8 => (5u8, 1u8),
        BbcKey::K9 => (6u8, 2u8),
        BbcKey::K0 => (7u8, 2u8),
        BbcKey::Minus => (7u8, 1u8),
        BbcKey::Equals => (8u8, 1u8),
        BbcKey::Caret => (8u8, 2u8),
        BbcKey::Backslash => (8u8, 7u8),
        BbcKey::Left => (9u8, 1u8),
        BbcKey::Tab => (0u8, 6u8),
        BbcKey::KeyQ => (0u8, 1u8),
        BbcKey::KeyW => (1u8, 2u8),
        BbcKey::KeyE => (2u8, 2u8),
        BbcKey::KeyR => (3u8, 3u8),
        BbcKey::KeyT => (3u8, 2u8),
        BbcKey::KeyY => (4u8, 4u8),
        BbcKey::KeyU => (5u8, 3u8),
        BbcKey::KeyI => (5u8, 2u8),
        BbcKey::KeyO => (6u8, 3u8),
        BbcKey::KeyP => (7u8, 3u8),
        BbcKey::At => (7u8, 4u8),
        BbcKey::OpenBracket => (8u8, 3u8),
        BbcKey::Up => (9u8, 3u8),
        BbcKey::CapsLock => (0u8, 4u8),
        BbcKey::KeyA => (1u8, 4u8),
        BbcKey::KeyS => (1u8, 5u8),
        BbcKey::KeyD => (2u8, 3u8),
        BbcKey::KeyF => (3u8, 4u8),
        BbcKey::KeyG => (3u8, 5u8),
        BbcKey::KeyH => (4u8, 5u8),
        BbcKey::KeyJ => (5u8, 4u8),
        BbcKey::KeyK => (6u8, 4u8),
        BbcKey::KeyL => (6u8, 5u8),
        BbcKey::Semicolon => (7u8, 5u8),
        BbcKey::Colon => (8u8, 4u8),
        BbcKey::CloseBracket => (8u8, 5u8),
        BbcKey::Return => (9u8, 4u8),
        BbcKey::ShiftLock => (0u8, 5u8),
        BbcKey::KeyZ => (1u8, 6u8),
        BbcKey::KeyX => (2u8, 4u8),
        BbcKey::KeyC => (2u8, 5u8),
        BbcKey::KeyV => (3u8, 6u8),
        BbcKey::KeyB => (4u8, 6u8),
        BbcKey::KeyN => (5u8, 5u8),
        BbcKey::KeyM => (5u8, 6u8),
        BbcKey::Comma => (6u8, 6u8),
        BbcKey::Period => (7u8, 6u8),
        BbcKey::Slash => (8u8, 6u8),
        BbcKey::Delete => (9u8, 5u8),
        BbcKey::Copy => (9u8, 6u8),
        BbcKey::Down => (9u8, 2u8),
        BbcKey::Right => (9u8, 7u8),
        BbcKey::Space => (2u8, 6u8),
        BbcKey::Escape => (0u8, 7u8),
        BbcKey::Break => (255u8, 255u8),
    }
}

/// The key at matrix cell (`col`, `row`), if any.
pub open spec fn key_at_cell(col: u8, row: u8) -> Option<BbcKey> {
    match (col, row) {
        (0u8, 0u8) => Some(BbcKey::Shift),
        (1u8, 0u8) => Some(BbcKey::Ctrl),
        (4u8, 1u8) => Some(BbcKey::F4),
        (0u8, 2u8) => Some(BbcKey::F0),
        (1u8, 7u8) => Some(BbcKey::F1),
        (2u8, 7u8) => Some(BbcKey::F2),
        (3u8, 7u8) => Some(BbcKey::F3),
        (4u8, 7u8) => Some(BbcKey::F5),
        (5u8, 7u8) => Some(BbcKey::F6),
        (6u8, 1u8) => Some(BbcKey::F7),
        (6u8, 7u8) => Some(BbcKey::F8),
        (7u8, 7u8) => Some(BbcKey::F9),
        (0u8, 3u8) => Some(BbcKey::K1),
        (1u8, 3u8) => Some(BbcKey::K2),
        (1u8, 1u8) => Some(BbcKey::K3),
        (2u8, 1u8) => Some(BbcKey::K4),
        (3u8, 1u8) => Some(BbcKey::K5),
        (4u8, 3u8) => Some(BbcKey::K6),
        (4u8, 2u8) => Some(BbcKey::K7),
        (5u8, 1u8) => Some(BbcKey::K8),
        (6u8, 2u8) => Some(BbcKey::K9),
        (7u8, 2u8) => Some(BbcKey::K0),
        (7u8, 1u8) => Some(BbcKey::Minus),
        (8u8, 1u8) => Some(BbcKey::Equals),
        (8u8, 2u8) => Some(BbcKey::Caret),
        (8u8, 7u8) => Some(BbcKey::Backslash),
        (9u8, 1u8) => Some(BbcKey::Left),
        (0u8, 6u8) => Some(BbcKey::Tab),
        (0u8, 1u8) => Some(BbcKey::KeyQ),
        (1u8, 2u8) => Some(BbcKey::KeyW),
        (2u8, 2u8) => Some(BbcKey::KeyE),
        (3u8, 3u8) => Some(BbcKey::KeyR),
        (3u8, 2u8) => Some(BbcKey::KeyT),
        (4u8, 4u8) => Some(BbcKey::KeyY),
        (5u8, 3u8) => Some(BbcKey::KeyU),
        (5u8, 2u8) => Some(BbcKey::KeyI),
        (6u8, 3u8) => Some(BbcKey::KeyO),
        (7u8, 3u8) => Some(BbcKey::KeyP),
        (7u8, 4u8) => Some(BbcKey::At),
        (8u8, 3u8) => Some(BbcKey::OpenBracket),
        (9u8, 3u8) => Some(BbcKey::Up),
        (0u8, 4u8) => Some(BbcKey::CapsLock),
        (1u8, 4u8) => Some(BbcKey::KeyA),
        (1u8, 5u8) => Some(BbcKey::KeyS),
        (2u8, 3u8) => Some(BbcKey::KeyD),
        (3u8, 4u8) => Some(BbcKey::KeyF),
        (3u8, 5u8) => Some(BbcKey::KeyG),
        (4u8, 5u8) => Some(BbcKey::KeyH),
        (5u8, 4u8) => Some(BbcKey::KeyJ),
        (6u8, 4u8) => Some(BbcKey::KeyK),
        (6u8, 5u8) => Some(BbcKey::KeyL),
        (7u8, 5u8) => Some(BbcKey::Semicolon),
        (8u8, 4u8) => Some(BbcKey::Colon),
        (8u8, 5u8) => Some(BbcKey::CloseBracket),
        (9u8, 4u8) => Some(BbcKey::Return),
        (0u8, 5u8) => Some(BbcKey::ShiftLock),
        (1u8, 6u8) => Some(BbcKey::KeyZ),
        (2u8, 4u8) => Some(BbcKey::KeyX),
        (2u8, 5u8) => Some(BbcKey::KeyC),
        (3u8, 6u8) => Some(BbcKey::KeyV),
        (4u8, 6u8) => Some(BbcKey::KeyB),
        (5u8, 5u8) => Some(BbcKey::KeyN),
        (5u8, 6u8) => Some(BbcKey::KeyM),
        (6u8, 6u8) => Some(BbcKey::Comma),
        (7u8, 6u8) => Some(BbcKey::Period),
        (8u8, 6u8) => Some(BbcKey::Slash),
        (9u8, 5u8) => Some(BbcKey::Delete),
        (9u8, 6u8) => Some(BbcKey::Copy),
        (9u8, 2u8) => Some(BbcKey::Down),
        (9u8, 7u8) => Some(BbcKey::Right),
        (2u8, 6u8) => Some(BbcKey::Space),
        (0u8, 7u8) => Some(BbcKey::Escape),
        _ => None,
    }
}

proof fn lemma_key_at_cell_inverts(k: BbcKey)
    ensures
        k != BbcKey::Break ==> key_at_cell(matrix_cell(k).0, matrix_cell(k).1) == Some(k),
        k != BbcKey::Break ==> matrix_cell(k).0 < 10 && matrix_cell(k).1 < 8,
{
    match k {
        BbcKey::Shift => {},
        BbcKey::Ctrl => {},
        BbcKey::F4 => {},
        BbcKey::F0 => {},
        BbcKey::F1 => {},
        BbcKey::F2 => {},
        BbcKey::F3 => {},
        BbcKey::F5 => {},
        BbcKey::F6 => {},
        BbcKey::F7 => {},
        BbcKey::F8 => {},
        BbcKey::F9 => {},
        BbcKey::K1 => {},
        BbcKey::K2 => {},
        BbcKey::K3 => {},
        BbcKey::K4 => {},
        BbcKey::K5 => {},
        BbcKey::K6 => {},
        BbcKey::K7 => {},
        BbcKey::K8 => {},
        BbcKey::K9 => {},
        BbcKey::K0 => {},
        BbcKey::Minus => {},
        BbcKey::Equals => {},
        BbcKey::Caret => {},
        BbcKey::Backslash => {},
        BbcKey::Left => {},
        BbcKey::Tab => {},
        BbcKey::KeyQ => {},
        BbcKey::KeyW => {},
        BbcKey::KeyE => {},
        BbcKey::KeyR => {},
        BbcKey::KeyT => {},
        BbcKey::KeyY => {},
        BbcKey::KeyU => {},
        BbcKey::KeyI => {},
        BbcKey::KeyO => {},
        BbcKey::KeyP => {},
        BbcKey::At => {},
        BbcKey::OpenBracket => {},
        BbcKey::Up => {},
        BbcKey::CapsLock => {},
        BbcKey::KeyA => {},
        BbcKey::KeyS => {},
        BbcKey::KeyD => {},
        BbcKey::KeyF => {},
        BbcKey::KeyG => {},
        BbcKey::KeyH => {},
        BbcKey::KeyJ => {},
        BbcKey::KeyK => {},
        BbcKey::KeyL => {},
        BbcKey::Semicolon => {},
        BbcKey::Colon => {},
        BbcKey::CloseBracket => {},
        BbcKey::Return => {},
        BbcKey::ShiftLock => {},
        BbcKey::KeyZ => {},
        BbcKey::KeyX => {},
        BbcKey::KeyC => {},
        BbcKey::KeyV => {},
        BbcKey::KeyB => {},
        BbcKey::KeyN => {},
        BbcKey::KeyM => {},
        BbcKey::Comma => {},
        BbcKey::Period => {},
        BbcKey::Slash => {},
        BbcKey::Delete => {},
        BbcKey::Copy => {},
        BbcKey::Down => {},
        BbcKey::Right => {},
        BbcKey::Space => {},
        BbcKey::Escape => {},
        BbcKey::Break => {},
    }
}

/// The MOS's internal key number of a matrix key (`INKEY(-(n + 1))` tests
/// key `n`: 85 for N, 101 for M); `None` for `Break`, which is wired to the
/// reset line, not the matrix.
pub open spec fn internal_key_number(k: BbcKey) -> Option<u8> {
    match k {
        BbcKey::Shift => Some(0x00u8),
        BbcKey::Ctrl => Some(0x01u8),
        BbcKey::F4 => Some(0x14u8),
        BbcKey::F0 => Some(0x20u8),
        BbcKey::F1 => Some(0x71u8),
        BbcKey::F2 => Some(0x72u8),
        BbcKey::F3 => Some(0x73u8),
        BbcKey::F5 => Some(0x74u8),
        BbcKey::F6 => Some(0x75u8),
        BbcKey::F7 => Some(0x16u8),
        BbcKey::F8 => Some(0x76u8),
        BbcKey::F9 => Some(0x77u8),
        BbcKey::K1 => Some(0x30u8),
        BbcKey::K2 => Some(0x31u8),
        BbcKey::K3 => Some(0x11u8),
        BbcKey::K4 => Some(0x12u8),
        BbcKey::K5 => Some(0x13u8),
        BbcKey::K6 => Some(0x34u8),
        BbcKey::K7 => Some(0x24u8),
        BbcKey::K8 => Some(0x15u8),
        BbcKey::K9 => Some(0x26u8),
        BbcKey::K0 => Some(0x27u8),
        BbcKey::Minus => Some(0x17u8),
        BbcKey::Equals => Some(0x18u8),
        BbcKey::Caret => Some(0x28u8),
        BbcKey::Backslash => Some(0x78u8),
        BbcKey::Left => Some(0x19u8),
        BbcKey::Tab => Some(0x60u8),
        BbcKey::KeyQ => Some(0x10u8),
        BbcKey::KeyW => Some(0x21u8),
        BbcKey::KeyE => Some(0x22u8),
        BbcKey::KeyR => Some(0x33u8),
        BbcKey::KeyT => Some(0x23u8),
        BbcKey::KeyY => Some(0x44u8),
        BbcKey::KeyU => Some(0x35u8),
        BbcKey::KeyI => Some(0x25u8),
        BbcKey::KeyO => Some(0x36u8),
        BbcKey::KeyP => Some(0x37u8),
        BbcKey::At => Some(0x47u8),
        BbcKey::OpenBracket => Some(0x38u8),
        BbcKey::Up => Some(0x39u8),
        BbcKey::CapsLock => Some(0x40u8),
        BbcKey::KeyA => Some(0x41u8),
        BbcKey::KeyS => Some(0x51u8),
        BbcKey::KeyD => Some(0x32u8),
        BbcKey::KeyF => Some(0x43u8),
        BbcKey::KeyG => Some(0x53u8),
        BbcKey::KeyH => Some(0x54u8),
        BbcKey::KeyJ => Some(0x45u8),
        BbcKey::KeyK => Some(0x46u8),
        BbcKey::KeyL => Some(0x56u8),
        BbcKey::Semicolon => Some(0x57u8),
        BbcKey::Colon => Some(0x48u8),
        BbcKey::CloseBracket => Some(0x58u8),
        BbcKey::Return => Some(0x49u8),
        BbcKey::ShiftLock => Some(0x50u8),
        BbcKey::KeyZ => Some(0x61u8),
        BbcKey::KeyX => Some(0x42u8),
        BbcKey::KeyC => Some(0x52u8),
        BbcKey::KeyV => Some(0x63u8),
        BbcKey::KeyB => Some(0x64u8),
        BbcKey::KeyN => Some(0x55u8),
        BbcKey::KeyM => Some(0x65u8),
        BbcKey::Comma => Some(0x66u8),
        BbcKey::Period => Some(0x67u8),
        BbcKey::Slash => Some(0x68u8),
        BbcKey::Delete => Some(0x59u8),
        BbcKey::Copy => Some(0x69u8),
        BbcKey::Down => Some(0x29u8),
        BbcKey::Right => Some(0x79u8),
        BbcKey::Space => Some(0x62u8),
        BbcKey::Escape => Some(0x70u8),
        BbcKey::Break => None,
    }
}

/// A matrix key's cell is its internal key number split into nibbles:
/// column in the low four bits, row in the high four; the scan finds that
/// key, and only it, at that cell.
pub proof fn lemma_matrix_cell_is_internal_key_number(k: BbcKey)
    ensures
        match internal_key_number(k) {
            Some(n) => matrix_cell(k) == (n % 16, n / 16) && key_at_cell(n % 16, n / 16) == Some(k),
            None => matrix_cell(k) == (255u8, 255u8),
        },
{
    lemma_key_at_cell_inverts(k);
}

/// Every matrix key lies inside the 10 x 8 matrix; `Break` has no cell.
pub proof fn lemma_matrix_cell_in_range(k: BbcKey)
    ensures
        k != BbcKey::Break ==> matrix_cell(k).0 < 10 && matrix_cell(k).1 < 8,
        k == BbcKey::Break ==> matrix_cell(k) == (255u8, 255u8),
{
    lemma_key_at_cell_inverts(k);
}

/// Distinct keys occupy distinct matrix cells.
pub proof fn lemma_matrix_cells_distinct(k1: BbcKey, k2: BbcKey)
    requires
        k1 != k2,
    ensures
        matrix_cell(k1) != matrix_cell(k2),
{
    lemma_key_at_cell_inverts(k1);
    lemma_key_at_cell_inverts(k2);
}

impl BbcKey {
    /// The matrix position `(column, row)`: column in 0..10, row in 0..8;
    /// `(255, 255)` for keys that are not in the matrix (`Break`).
    pub fn matrix_pos(self) -> (p: (u8, u8))
        ensures
            p == matrix_cell(self),
    {
        match self {
            BbcKey::Shift => (0, 0),
            BbcKey::Ctrl => (1, 0),
            BbcKey::F4 => (4, 1),
            BbcKey::F0 => (0, 2),
            BbcKey::F1 => (1, 7),
            BbcKey::F2 => (2, 7),
            BbcKey::F3 => (3, 7),
            BbcKey::F5 => (4, 7),
            BbcKey::F6 => (5, 7),
            BbcKey::F7 => (6, 1),
            BbcKey::F8 => (6, 7),
            BbcKey::F9 => (7, 7),
            BbcKey::K1 => (0, 3),
            BbcKey::K2 => (1, 3),
            BbcKey::K3 => (1, 1),
            BbcKey::K4 => (2, 1),
            BbcKey::K5 => (3, 1),
            BbcKey::K6 => (4, 3),
            BbcKey::K7 => (4, 2),
            BbcKey::K8 => (5, 1),
            BbcKey::K9 => (6, 2),
            BbcKey::K0 => (7, 2),
            BbcKey::Minus => (7, 1),
            BbcKey::Equals => (8, 1),
            BbcKey::Caret => (8, 2),
            BbcKey::Backslash => (8, 7),
            BbcKey::Left => (9, 1),
            BbcKey::Tab => (0, 6),
            BbcKey::KeyQ => (0, 1),
            BbcKey::KeyW => (1, 2),
            BbcKey::KeyE => (2, 2),
            BbcKey::KeyR => (3, 3),
            BbcKey::KeyT => (3, 2),
            BbcKey::KeyY => (4, 4),
            BbcKey::KeyU => (5, 3),
            BbcKey::KeyI => (5, 2),
            BbcKey::KeyO => (6, 3),
            BbcKey::KeyP => (7, 3),
            BbcKey::At => (7, 4),
            BbcKey::OpenBracket => (8, 3),
            BbcKey::Up => (9, 3),
            BbcKey::CapsLock => (0, 4),
            BbcKey::KeyA => (1, 4),
            BbcKey::KeyS => (1, 5),
            BbcKey::KeyD => (2, 3),
            BbcKey::KeyF => (3, 4),
            BbcKey::KeyG => (3, 5),
            BbcKey::KeyH => (4, 5),
            BbcKey::KeyJ => (5, 4),
            BbcKey::KeyK => (6, 4),
            BbcKey::KeyL => (6, 5),
            BbcKey::Semicolon => (7, 5),
            BbcKey::Colon => (8, 4),
            BbcKey::CloseBracket => (8, 5),
            BbcKey::Return => (9, 4),
            BbcKey::ShiftLock => (0, 5),
            BbcKey::KeyZ => (1, 6),
            BbcKey::KeyX => (2, 4),
            BbcKey::KeyC => (2, 5),
            BbcKey::KeyV => (3, 6),
            BbcKey::KeyB => (4, 6),
            BbcKey::KeyN => (5, 5),
            BbcKey::KeyM => (5, 6),
            BbcKey::Comma => (6, 6),
            BbcKey::Period => (7, 6),
            BbcKey::Slash => (8, 6),
            BbcKey::Delete => (9, 5),
            BbcKey::Copy => (9, 6),
            BbcKey::Down => (9, 2),
            BbcKey::Right => (9, 7),
            BbcKey::Space => (2, 6),
            BbcKey::Escape => (0, 7),
            BbcKey::Break => (255, 255),
        }
    }
}

/// True when the key at (`col`, `row`) of the matrix `keys` is down.
pub open spec fn key_bit(keys: Seq<u8>, col: int, row: int) -> bool {
    keys[col] & (1u8 << (row as u8)) != 0
}

/// Whether the key addressed by port A (PA0-PA3 column, PA4-PA6 row) is down.
pub open spec fn addressed_key_down(keys: Seq<u8>, pa: u8) -> bool {
    let col = pa & 0x0F;
    let row = (pa >> 4) & 0x07;
    col < 10 && key_bit(keys, col as int, row as int)
}

/// Whether any key in rows 1..7 (not Shift/Ctrl) of column `col` is down.
pub open spec fn column_has_normal_key(keys: Seq<u8>, col: int) -> bool {
    keys[col] & 0xFE != 0
}

/// The matrix after pressing (`pressed`) or releasing `key`: the bit of
/// its row in its column set or cleared.
pub open spec fn keys_with(keys: Seq<u8>, key: BbcKey, pressed: bool) -> Seq<u8> {
    let (col, row) = matrix_cell(key);
    let mask = 1u8 << row;
    keys.update(col as int, if pressed { keys[col as int] | mask } else { keys[col as int] & !mask })
}

proof fn lemma_bit_ops(b: u8, row: u8, row2: u8)
    requires
        row < 8,
        row2 < 8,
    ensures
        (b | (1u8 << row)) & (1u8 << row) != 0,
        (b & !(1u8 << row)) & (1u8 << row) == 0,
        row2 != row ==> ((b | (1u8 << row)) & (1u8 << row2) != 0) == (b & (1u8 << row2) != 0),
        row2 != row ==> ((b & !(1u8 << row)) & (1u8 << row2) != 0) == (b & (1u8 << row2) != 0),
{
    assert((b | (1u8 << row)) & (1u8 << row) != 0) by (bit_vector)
        requires
            row < 8,
    ;
    assert((b & !(1u8 << row)) & (1u8 << row) == 0) by (bit_vector)
        requires
            row < 8,
    ;
    assert(row2 != row ==> ((b | (1u8 << row)) & (1u8 << row2) != 0) == (b & (1u8 << row2) != 0)
        && ((b & !(1u8 << row)) & (1u8 << row2) != 0) == (b & (1u8 << row2) != 0)) by (bit_vector)
        requires
            row < 8,
            row2 < 8,
    ;
}

/// A manual scan that addresses a key's cell (column on PA0-PA3, row on
/// PA4-PA6) sees it down exactly while it is pressed, and pressing or
/// releasing one key leaves every other key as it was.
pub proof fn lemma_key_scan(keys: Seq<u8>, key: BbcKey, pressed: bool, other: BbcKey)
    requires
        keys.len() == 10,
        key != BbcKey::Break,
        other != BbcKey::Break,
        other != key,
    ensures
        ({
            let (col, row) = matrix_cell(key);
            addressed_key_down(keys_with(keys, key, pressed), col | (row << 4)) == pressed
        }),
        ({
            let (c2, r2) = matrix_cell(other);
            key_bit(keys_with(keys, key, pressed), c2 as int, r2 as int) == key_bit(
                keys,
                c2 as int,
                r2 as int,
            )
        }),
{
    lemma_matrix_cell_in_range(key);
    lemma_matrix_cell_in_range(other);
    lemma_matrix_cells_distinct(key, other);
    let (col, row) = matrix_cell(key);
    let (c2, r2) = matrix_cell(other);
    let pa = col | (row << 4);
    assert(pa & 0x0F == col && (pa >> 4) & 0x07 == row) by (bit_vector)
        requires
            pa == col | (row << 4),
            col < 10,
            row < 8,
    ;
    lemma_bit_ops(keys[col as int], row, row);
    lemma_bit_ops(keys[col as int], row, r2);
}

pub struct SystemVia {
    pub via: Via6522,
    /// The IC32 addressable latch driven by port B.
    pub ic32: u8,
    /// Keyboard matrix: bit `r` of `keys[c]` is set while the key at
    /// column `c`, row `r` is down.
    pub keys: [u8; 10],
    /// Slow-data-bus byte captured on the rising edge of the sound /WE.
    pub sound_latch: u8,
    /// Level of the sound /WE line after the last port-B write.
    pub last_sound_we: bool,
}

impl SystemVia {
    pub open spec fn autoscan(self) -> bool {
        self.ic32 & (1u8 << ic32::KEYBOARD_AUTOSCAN) != 0
    }

    /// PA7 as seen by the CPU: high in auto-scan mode, otherwise high only
    /// while the addressed key is down.
    pub open spec fn pa7(self) -> bool {
        self.autoscan() || addressed_key_down(self.keys@, self.via.ora)
    }

    /// The keyboard's "key down" output that drives CA2: any key in rows
    /// 1..7 when auto-scanning, else any such key in the addressed column.
    pub open spec fn keyboard_ca2(self) -> bool {
        if self.autoscan() {
            exists|c: int| 0 <= c < 10 && column_has_normal_key(self.keys@, c)
        } else {
            let col = self.via.ora & 0x0F;
            col < 10 && column_has_normal_key(self.keys@, col as int)
        }
    }

    /// The VIA with PA7 of the input lines refreshed from the keyboard.
    pub open spec fn via_with_pa7(self) -> Via6522 {
        if self.pa7() {
            Via6522 { ira: self.via.ira | 0x80, ..self.via }
        } else {
            Via6522 { ira: self.via.ira & 0x7F, ..self.via }
        }
    }

    /// IC32 after a port-B write of `pb`: bit `pb & 7` takes the value of PB3.
    pub open spec fn ic32_after(ic32: u8, pb: u8) -> u8 {
        let mask = 1u8 << (pb & 0x07);
        if pb & 0x08 != 0 {
            ic32 | mask
        } else {
            ic32 & !mask
        }
    }

    /// State after writing `value` to register `reg`.
    pub open spec fn after_write(self, reg: u8, value: u8) -> Self {
        let via = self.via.after_write(reg, value);
        if reg & 0x0F == 0 {
            let ic = Self::ic32_after(self.ic32, value);
            let prev_we = self.ic32 & 1 != 0;
            let new_we = ic & 1 != 0;
            if prev_we && !new_we {
                SystemVia { via, ic32: ic, last_sound_we: false, ..self }
            } else if !prev_we && new_we {
                SystemVia { via, ic32: ic, sound_latch: via.ora, last_sound_we: true, ..self }
            } else {
                SystemVia { via, ic32: ic, ..self }
            }
        } else {
            SystemVia { via, ..self }
        }
    }

    /// Screen-size code: IC32 bit 4 is the high bit, bit 5 the low bit.
    pub open spec fn size_code(self) -> u8 {
        (((self.ic32 >> 4) & 1) << 1) | ((self.ic32 >> 5) & 1)
    }

    pub fn new() -> (s: Self)
        ensures
            s.via.is_reset(),
            s.ic32 == 0,
            s.keys@ == Seq::new(10, |i: int| 0u8),
            s.sound_latch == 0,
            s.last_sound_we,
    {
        let s = SystemVia {
            via: Via6522::new(),
            ic32: 0x00,
            keys: [0u8; 10],
            sound_latch: 0,
            last_sound_we: true,
        };
        assert(s.keys@ =~= Seq::new(10, |i: int| 0u8));
        s
    }

    /// Press (`pressed`) or release a key. Keys outside the matrix are
    /// ignored.
    pub fn set_key(&mut self, key: BbcKey, pressed: bool)
        ensures
            ({
                if key == BbcKey::Break {
                    *final(self) == *old(self)
                } else {
                    &&& final(self).keys@ == keys_with(old(self).keys@, key, pressed)
                    &&& final(self).via == old(self).via
                    &&& final(self).ic32 == old(self).ic32
                    &&& final(self).sound_latch == old(self).sound_latch
                    &&& final(self).last_sound_we == old(self).last_sound_we
                }
            }),
    {
        let (col, row) = key.matrix_pos();
        proof {
            lemma_matrix_cell_in_range(key);
        }
        if col >= 10 || row >= 8 {
            return;
        }
        let mask = 1u8 << row;
        let c = col as usize;
        if pressed {
            self.keys[c] = self.keys[c] | mask;
        } else {
            self.keys[c] = self.keys[c] & !mask;
        }
    }

    /// True if any key (any column, any row) is down.
    pub fn any_key_pressed(&self) -> (b: bool)
        ensures
            b == exists|c: int| 0 <= c < 10 && self.keys@[c] != 0,
    {
        let mut i: usize = 0;
        while i < 10
            invariant
                i <= 10,
                forall|c: int| 0 <= c < i ==> self.keys@[c] == 0,
            decreases 10 - i,
        {
            if self.keys[i] != 0 {
                assert(self.keys@[i as int] != 0);
                return true;
            }
            i = i + 1;
        }
        false
    }

    fn any_normal_key_pressed(&self) -> (b: bool)
        ensures
            b == exists|c: int| 0 <= c < 10 && column_has_normal_key(self.keys@, c),
    {
        let mut i: usize = 0;
        while i < 10
            invariant
                i <= 10,
                forall|c: int| 0 <= c < i ==> !column_has_normal_key(self.keys@, c),
            decreases 10 - i,
        {
            if self.keys[i] & 0xFE != 0 {
                assert(column_has_normal_key(self.keys@, i as int));
                return true;
            }
            i = i + 1;
        }
        false
    }

    fn selected_key_pressed(&self) -> (b: bool)
        ensures
            b == addressed_key_down(self.keys@, self.via.ora),
    {
        let pa = self.via.ora;
        let col = pa & 0x0F;
        let row = (pa >> 4) & 0x07;
        assert((pa >> 4) & 0x07 < 8) by {
            crate::bits::lemma_byte_fields(pa);
        }
        if col >= 10 {
            return false;
        }
        self.keys[col as usize] & (1u8 << row) != 0
    }

    fn pa7_state(&self) -> (b: bool)
        ensures
            b == self.pa7(),
    {
        let autoscan = self.ic32 & (1u8 << ic32::KEYBOARD_AUTOSCAN) != 0;
        if autoscan {
            true
        } else {
            self.selected_key_pressed()
        }
    }

    /// Read a register; port-A reads see the live keyboard state on PA7.
    pub fn read(&mut self, reg: u8) -> (value: u8)
        ensures
            value == old(self).via_with_pa7().read_value(reg),
            final(self).via == old(self).via_with_pa7().after_read(reg),
            final(self).ic32 == old(self).ic32,
            final(self).keys == old(self).keys,
            final(self).sound_latch == old(self).sound_latch,
            final(self).last_sound_we == old(self).last_sound_we,
    {
        if self.pa7_state() {
            self.via.ira = self.via.ira | 0x80;
        } else {
            self.via.ira = self.via.ira & 0x7F;
        }
        self.via.read(reg)
    }

    /// Write a register. A port-B write also updates one bit of IC32; the
    /// rising edge of the sound /WE latches port A into `sound_latch`.
    pub fn write(&mut self, reg: u8, value: u8)
        ensures
            *final(self) == old(self).after_write(reg, value),
    {
        self.via.write(reg, value);
        if reg & 0x0F == 0 {
            let pb = value;
            let addr = pb & 0x07;
            assert(pb & 0x07 < 8) by {
            crate::bits::lemma_byte_fields(pb);
        }
            let data = pb & 0x08 != 0;
            let mask = 1u8 << addr;
            let prev_we = self.ic32 & 1 != 0;
            if data {
                self.ic32 = self.ic32 | mask;
            } else {
                self.ic32 = self.ic32 & !mask;
            }
            let new_we = self.ic32 & 1 != 0;
            if prev_we && !new_we {
                self.last_sound_we = false;
            } else if !prev_we && new_we {
                self.sound_latch = self.via.ora;
                self.last_sound_we = true;
            }
        }
    }

    /// Drive CA2 from the keyboard's "key down" output.
    pub fn refresh_autoscan_ca2(&mut self)
        ensures
            final(self).via == old(self).via.with_ca2(old(self).keyboard_ca2()),
            final(self).ic32 == old(self).ic32,
            final(self).keys == old(self).keys,
            final(self).sound_latch == old(self).sound_latch,
            final(self).last_sound_we == old(self).last_sound_we,
    {
        let autoscan = self.ic32 & (1u8 << ic32::KEYBOARD_AUTOSCAN) != 0;
        let any = if autoscan {
            self.any_normal_key_pressed()
        } else {
            let col = self.via.ora & 0x0F;
            if col < 10 {
                self.keys[col as usize] & 0xFE != 0
            } else {
                false
            }
        };
        self.via.set_ca2(any);
    }

    /// Advance the VIA timers and refresh the keyboard CA2 line. Returns true
    /// when the timers raised the IRQ or an interrupt is pending afterwards.
    pub fn tick(&mut self, cycles: u32) -> (irq: bool)
        ensures
            ({
                let ticked = old(self).via.ticked(cycles);
                &&& final(self).via == ticked.with_ca2(
                    SystemVia { via: ticked, ..*old(self) }.keyboard_ca2(),
                )
                &&& irq == ((!old(self).via.pending_irq() && ticked.pending_irq())
                    || final(self).via.pending_irq())
            }),
            final(self).ic32 == old(self).ic32,
            final(self).keys == old(self).keys,
            final(self).sound_latch == old(self).sound_latch,
            final(self).last_sound_we == old(self).last_sound_we,
    {
        let new_irq = self.via.tick(cycles);
        self.refresh_autoscan_ca2();
        new_irq || self.via.has_pending_irq()
    }

    /// Drive the CRTC's VSYNC output into CA1.
    pub fn pulse_vsync(&mut self, vsync_active: bool)
        ensures
            final(self).via == old(self).via.with_ca1(vsync_active),
            final(self).ic32 == old(self).ic32,
            final(self).keys == old(self).keys,
            final(self).sound_latch == old(self).sound_latch,
            final(self).last_sound_we == old(self).last_sound_we,
    {
        self.via.set_ca1(vsync_active);
    }

    pub fn poll_irq(&self) -> (b: bool)
        ensures
            b == self.via.pending_irq(),
    {
        self.via.has_pending_irq()
    }

    /// Screen-size code from IC32 bits 4-5: bit 4 is the high bit of the
    /// code, bit 5 the low bit.
    pub fn screen_size_code(&self) -> (c: u8)
        ensures
            c == self.size_code(),
            c == (((self.ic32 >> 4) & 1) << 1) | ((self.ic32 >> 5) & 1),
            c < 4,
    {
        let ic = self.ic32;
        assert((((ic >> 4) & 1) << 1) | ((ic >> 5) & 1) < 4) by {
            crate::bits::lemma_byte_fields(ic);
        }
        let bit4 = (self.ic32 >> ic32::SCREEN_SIZE_S0) & 1;
        let bit5 = (self.ic32 >> ic32::SCREEN_SIZE_S1) & 1;
        (bit4 << 1) | bit5
    }
}

impl Default for SystemVia {
    fn default() -> (s: Self)
        ensures
            s.via.is_reset(),
            s.ic32 == 0,
            s.keys@ == Seq::new(10, |i: int| 0u8),
            s.sound_latch == 0,
            s.last_sound_we,
    {
        SystemVia::new()
    }
}

} // verus!
