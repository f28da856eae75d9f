//! Physical keyboard keys and their codes on the wire.
use crate::error::{DcError, DcErrorView};
use crate::text::{decimal, with_number};
use vstd::prelude::*;

verus! {

/// A physical key of a keyboard, named after its position on a US layout.
#[derive(Clone, Copy, Debug, Eq, Hash, PartialEq, Structural)]
pub enum KeyboardKey {
    Digit0,
    Digit1,
    Digit2,
    Digit3,
    Digit4,
    Digit5,
    Digit6,
    Digit7,
    Digit8,
    Digit9,
    A,
    B,
    C,
    D,
    E,
    F,
    G,
    H,
    I,
    J,
    K,
    L,
    M,
    N,
    O,
    P,
    Q,
    R,
    S,
    T,
    U,
    V,
    W,
    X,
    Y,
    Z,
    F1,
    F2,
    F3,
    F4,
    F5,
    F6,
    F7,
    F8,
    F9,
    F10,
    F11,
    F12,
    F13,
    F14,
    F15,
    ArrowDown,
    ArrowLeft,
    ArrowRight,
    ArrowUp,
    Apostrophe,
    Backquote,
    Backslash,
    Comma,
    Equal,
    LeftBracket,
    Minus,
    Period,
    RightBracket,
    Semicolon,
    Slash,
    Backspace,
    Delete,
    End,
    Enter,
    Escape,
    Home,
    Insert,
    ContextMenu,
    PageDown,
    PageUp,
    Pause,
    Space,
    Tab,
    NumLock,
    CapsLock,
    ScrollLock,
    LeftShift,
    RightShift,
    LeftControl,
    RightControl,
    Numpad0,
    Numpad1,
    Numpad2,
    Numpad3,
    Numpad4,
    Numpad5,
    Numpad6,
    Numpad7,
    Numpad8,
    Numpad9,
    NumpadDecimal,
    NumpadDivide,
    NumpadMultiply,
    NumpadSubtract,
    NumpadAdd,
    NumpadEnter,
    LeftAlt,
    RightAlt,
    LeftSuper,
    RightSuper,
}

impl KeyboardKey {
    /// The code of the key on the wire.
    pub open spec fn code(self) -> u16 {
        match self {
            KeyboardKey::Digit0 => 0x0001,
            KeyboardKey::Digit1 => 0x0002,
            KeyboardKey::Digit2 => 0x0003,
            KeyboardKey::Digit3 => 0x0004,
            KeyboardKey::Digit4 => 0x0005,
            KeyboardKey::Digit5 => 0x0006,
            KeyboardKey::Digit6 => 0x0007,
            KeyboardKey::Digit7 => 0x0008,
            KeyboardKey::Digit8 => 0x0009,
            KeyboardKey::Digit9 => 0x000a,
            KeyboardKey::A => 0x0010,
            KeyboardKey::B => 0x0011,
            KeyboardKey::C => 0x0012,
            KeyboardKey::D => 0x0013,
            KeyboardKey::E => 0x0014,
            KeyboardKey::F => 0x0015,
            KeyboardKey::G => 0x0016,
            KeyboardKey::H => 0x0017,
            KeyboardKey::I => 0x0018,
            KeyboardKey::J => 0x0019,
            KeyboardKey::K => 0x001a,
            KeyboardKey::L => 0x001b,
            KeyboardKey::M => 0x001c,
            KeyboardKey::N => 0x001d,
            KeyboardKey::O => 0x001e,
            KeyboardKey::P => 0x001f,
            KeyboardKey::Q => 0x0020,
            KeyboardKey::R => 0x0021,
            KeyboardKey::S => 0x0022,
            KeyboardKey::T => 0x0023,
            KeyboardKey::U => 0x0024,
            KeyboardKey::V => 0x0025,
            KeyboardKey::W => 0x0026,
            KeyboardKey::X => 0x0027,
            KeyboardKey::Y => 0x0028,
            KeyboardKey::Z => 0x0029,
            KeyboardKey::F1 => 0x0030,
            KeyboardKey::F2 => 0x0031,
            KeyboardKey::F3 => 0x0032,
            KeyboardKey::F4 => 0x0033,
            KeyboardKey::F5 => 0x0034,
            KeyboardKey::F6 => 0x0035,
            KeyboardKey::F7 => 0x0036,
            KeyboardKey::F8 => 0x0037,
            KeyboardKey::F9 => 0x0038,
            KeyboardKey::F10 => 0x0039,
            KeyboardKey::F11 => 0x003a,
            KeyboardKey::F12 => 0x003b,
            KeyboardKey::F13 => 0x003c,
            KeyboardKey::F14 => 0x003d,
            KeyboardKey::F15 => 0x003e,
            KeyboardKey::ArrowDown => 0x0040,
            KeyboardKey::ArrowLeft => 0x0041,
            KeyboardKey::ArrowRight => 0x0042,
            KeyboardKey::ArrowUp => 0x0043,
            KeyboardKey::Apostrophe => 0x0044,
            KeyboardKey::Backquote => 0x0045,
            KeyboardKey::Backslash => 0x0046,
            KeyboardKey::Comma => 0x0047,
            KeyboardKey::Equal => 0x0048,
            KeyboardKey::LeftBracket => 0x0049,
            KeyboardKey::Minus => 0x004a,
            KeyboardKey::Period => 0x004b,
            KeyboardKey::RightBracket => 0x004c,
            KeyboardKey::Semicolon => 0x004d,
            KeyboardKey::Slash => 0x004e,
            KeyboardKey::Backspace => 0x0050,
            KeyboardKey::Delete => 0x0051,
            KeyboardKey::End => 0x0052,
            KeyboardKey::Enter => 0x0053,
            KeyboardKey::Escape => 0x0054,
            KeyboardKey::Home => 0x0055,
            KeyboardKey::Insert => 0x0056,
            KeyboardKey::ContextMenu => 0x0057,
            KeyboardKey::PageDown => 0x0058,
            KeyboardKey::PageUp => 0x0059,
            KeyboardKey::Pause => 0x005a,
            KeyboardKey::Space => 0x005b,
            KeyboardKey::Tab => 0x005c,
            KeyboardKey::NumLock => 0x005d,
            KeyboardKey::CapsLock => 0x005e,
            KeyboardKey::ScrollLock => 0x005f,
            KeyboardKey::LeftShift => 0x0060,
            KeyboardKey::RightShift => 0x0061,
            KeyboardKey::LeftControl => 0x0062,
            KeyboardKey::RightControl => 0x0063,
            KeyboardKey::Numpad0 => 0x0070,
            KeyboardKey::Numpad1 => 0x0071,
            KeyboardKey::Numpad2 => 0x0072,
            KeyboardKey::Numpad3 => 0x0073,
            KeyboardKey::Numpad4 => 0x0074,
            KeyboardKey::Numpad5 => 0x0075,
            KeyboardKey::Numpad6 => 0x0076,
            KeyboardKey::Numpad7 => 0x0077,
            KeyboardKey::Numpad8 => 0x0078,
            KeyboardKey::Numpad9 => 0x0079,
            KeyboardKey::NumpadDecimal => 0x007a,
            KeyboardKey::NumpadDivide => 0x007b,
            KeyboardKey::NumpadMultiply => 0x007c,
            KeyboardKey::NumpadSubtract => 0x007d,
            KeyboardKey::NumpadAdd => 0x007e,
            KeyboardKey::NumpadEnter => 0x007f,
            KeyboardKey::LeftAlt => 0x0080,
            KeyboardKey::RightAlt => 0x0081,
            KeyboardKey::LeftSuper => 0x0082,
            KeyboardKey::RightSuper => 0x0083,
        }
    }

    /// The key with the given code on the wire, if there is one.
    pub open spec fn of_code(value: u16) -> Option<KeyboardKey> {
        match value {
            0x0001 => Some(KeyboardKey::Digit0),
            0x0002 => Some(KeyboardKey::Digit1),
            0x0003 => Some(KeyboardKey::Digit2),
            0x0004 => Some(KeyboardKey::Digit3),
            0x0005 => Some(KeyboardKey::Digit4),
            0x0006 => Some(KeyboardKey::Digit5),
            0x0007 => Some(KeyboardKey::Digit6),
            0x0008 => Some(KeyboardKey::Digit7),
            0x0009 => Some(KeyboardKey::Digit8),
            0x000a => Some(KeyboardKey::Digit9),
            0x0010 => Some(KeyboardKey::A),
            0x0011 => Some(KeyboardKey::B),
            0x0012 => Some(KeyboardKey::C),
            0x0013 => Some(KeyboardKey::D),
            0x0014 => Some(KeyboardKey::E),
            0x0015 => Some(KeyboardKey::F),
            0x0016 => Some(KeyboardKey::G),
            0x0017 => Some(KeyboardKey::H),
            0x0018 => Some(KeyboardKey::I),
            0x0019 => Some(KeyboardKey::J),
            0x001a => Some(KeyboardKey::K),
            0x001b => Some(KeyboardKey::L),
            0x001c => Some(KeyboardKey::M),
            0x001d => Some(KeyboardKey::N),
            0x001e => Some(KeyboardKey::O),
            0x001f => Some(KeyboardKey::P),
            0x0020 => Some(KeyboardKey::Q),
            0x0021 => Some(KeyboardKey::R),
            0x0022 => Some(KeyboardKey::S),
            0x0023 => Some(KeyboardKey::T),
            0x0024 => Some(KeyboardKey::U),
            0x0025 => Some(KeyboardKey::V),
            0x0026 => Some(KeyboardKey::W),
            0x0027 => Some(KeyboardKey::X),
            0x0028 => Some(KeyboardKey::Y),
            0x0029 => Some(KeyboardKey::Z),
            0x0030 => Some(KeyboardKey::F1),
            0x0031 => Some(KeyboardKey::F2),
            0x0032 => Some(KeyboardKey::F3),
            0x0033 => Some(KeyboardKey::F4),
            0x0034 => Some(KeyboardKey::F5),
            0x0035 => Some(KeyboardKey::F6),
            0x0036 => Some(KeyboardKey::F7),
            0x0037 => Some(KeyboardKey::F8),
            0x0038 => Some(KeyboardKey::F9),
            0x0039 => Some(KeyboardKey::F10),
            0x003a => Some(KeyboardKey::F11),
            0x003b => Some(KeyboardKey::F12),
            0x003c => Some(KeyboardKey::F13),
            0x003d => Some(KeyboardKey::F14),
            0x003e => Some(KeyboardKey::F15),
            0x0040 => Some(KeyboardKey::ArrowDown),
            0x0041 => Some(KeyboardKey::ArrowLeft),
            0x0042 => Some(KeyboardKey::ArrowRight),
            0x0043 => Some(KeyboardKey::ArrowUp),
            0x0044 => Some(KeyboardKey::Apostrophe),
            0x0045 => Some(KeyboardKey::Backquote),
            0x0046 => Some(KeyboardKey::Backslash),
            0x0047 => Some(KeyboardKey::Comma),
            0x0048 => Some(KeyboardKey::Equal),
            0x0049 => Some(KeyboardKey::LeftBracket),
            0x004a => Some(KeyboardKey::Minus),
            0x004b => Some(KeyboardKey::Period),
            0x004c => Some(KeyboardKey::RightBracket),
            0x004d => Some(KeyboardKey::Semicolon),
            0x004e => Some(KeyboardKey::Slash),
            0x0050 => Some(KeyboardKey::Backspace),
            0x0051 => Some(KeyboardKey::Delete),
            0x0052 => Some(KeyboardKey::End),
            0x0053 => Some(KeyboardKey::Enter),
            0x0054 => Some(KeyboardKey::Escape),
            0x0055 => Some(KeyboardKey::Home),
            0x0056 => Some(KeyboardKey::Insert),
            0x0057 => Some(KeyboardKey::ContextMenu),
            0x0058 => Some(KeyboardKey::PageDown),
            0x0059 => Some(KeyboardKey::PageUp),
            0x005a => Some(KeyboardKey::Pause),
            0x005b => Some(KeyboardKey::Space),
            0x005c => Some(KeyboardKey::Tab),
            0x005d => Some(KeyboardKey::NumLock),
            0x005e => Some(KeyboardKey::CapsLock),
            0x005f => Some(KeyboardKey::ScrollLock),
            0x0060 => Some(KeyboardKey::LeftShift),
            0x0061 => Some(KeyboardKey::RightShift),
            0x0062 => Some(KeyboardKey::LeftControl),
            0x0063 => Some(KeyboardKey::RightControl),
            0x0070 => Some(KeyboardKey::Numpad0),
            0x0071 => Some(KeyboardKey::Numpad1),
            0x0072 => Some(KeyboardKey::Numpad2),
            0x0073 => Some(KeyboardKey::Numpad3),
            0x0074 => Some(KeyboardKey::Numpad4),
            0x0075 => Some(KeyboardKey::Numpad5),
            0x0076 => Some(KeyboardKey::Numpad6),
            0x0077 => Some(KeyboardKey::Numpad7),
            0x0078 => Some(KeyboardKey::Numpad8),
            0x0079 => Some(KeyboardKey::Numpad9),
            0x007a => Some(KeyboardKey::NumpadDecimal),
            0x007b => Some(KeyboardKey::NumpadDivide),
            0x007c => Some(KeyboardKey::NumpadMultiply),
            0x007d => Some(KeyboardKey::NumpadSubtract),
            0x007e => Some(KeyboardKey::NumpadAdd),
            0x007f => Some(KeyboardKey::NumpadEnter),
            0x0080 => Some(KeyboardKey::LeftAlt),
            0x0081 => Some(KeyboardKey::RightAlt),
            0x0082 => Some(KeyboardKey::LeftSuper),
            0x0083 => Some(KeyboardKey::RightSuper),
            _ => None,
        }
    }

    /// The code of the key on the wire.
    pub fn wire_code(self) -> (code: u16)
        ensures
            code == self.code(),
    {
        match self {
            KeyboardKey::Digit0 => 0x0001,
            KeyboardKey::Digit1 => 0x0002,
            KeyboardKey::Digit2 => 0x0003,
            KeyboardKey::Digit3 => 0x0004,
            KeyboardKey::Digit4 => 0x0005,
            KeyboardKey::Digit5 => 0x0006,
            KeyboardKey::Digit6 => 0x0007,
            KeyboardKey::Digit7 => 0x0008,
            KeyboardKey::Digit8 => 0x0009,
            KeyboardKey::Digit9 => 0x000a,
            KeyboardKey::A => 0x0010,
            KeyboardKey::B => 0x0011,
            KeyboardKey::C => 0x0012,
            KeyboardKey::D => 0x0013,
            KeyboardKey::E => 0x0014,
            KeyboardKey::F => 0x0015,
            KeyboardKey::G => 0x0016,
            KeyboardKey::H => 0x0017,
            KeyboardKey::I => 0x0018,
            KeyboardKey::J => 0x0019,
            KeyboardKey::K => 0x001a,
            KeyboardKey::L => 0x001b,
            KeyboardKey::M => 0x001c,
            KeyboardKey::N => 0x001d,
            KeyboardKey::O => 0x001e,
            KeyboardKey::P => 0x001f,
            KeyboardKey::Q => 0x0020,
            KeyboardKey::R => 0x0021,
            KeyboardKey::S => 0x0022,
            KeyboardKey::T => 0x0023,
            KeyboardKey::U => 0x0024,
            KeyboardKey::V => 0x0025,
            KeyboardKey::W => 0x0026,
            KeyboardKey::X => 0x0027,
            KeyboardKey::Y => 0x0028,
            KeyboardKey::Z => 0x0029,
            KeyboardKey::F1 => 0x0030,
            KeyboardKey::F2 => 0x0031,
            KeyboardKey::F3 => 0x0032,
            KeyboardKey::F4 => 0x0033,
            KeyboardKey::F5 => 0x0034,
            KeyboardKey::F6 => 0x0035,
            KeyboardKey::F7 => 0x0036,
            KeyboardKey::F8 => 0x0037,
            KeyboardKey::F9 => 0x0038,
            KeyboardKey::F10 => 0x0039,
            KeyboardKey::F11 => 0x003a,
            KeyboardKey::F12 => 0x003b,
            KeyboardKey::F13 => 0x003c,
            KeyboardKey::F14 => 0x003d,
            KeyboardKey::F15 => 0x003e,
            KeyboardKey::ArrowDown => 0x0040,
            KeyboardKey::ArrowLeft => 0x0041,
            KeyboardKey::ArrowRight => 0x0042,
            KeyboardKey::ArrowUp => 0x0043,
            KeyboardKey::Apostrophe => 0x0044,
            KeyboardKey::Backquote => 0x0045,
            KeyboardKey::Backslash => 0x0046,
            KeyboardKey::Comma => 0x0047,
            KeyboardKey::Equal => 0x0048,
            KeyboardKey::LeftBracket => 0x0049,
            KeyboardKey::Minus => 0x004a,
            KeyboardKey::Period => 0x004b,
            KeyboardKey::RightBracket => 0x004c,
            KeyboardKey::Semicolon => 0x004d,
            KeyboardKey::Slash => 0x004e,
            KeyboardKey::Backspace => 0x0050,
            KeyboardKey::Delete => 0x0051,
            KeyboardKey::End => 0x0052,
            KeyboardKey::Enter => 0x0053,
            KeyboardKey::Escape => 0x0054,
            KeyboardKey::Home => 0x0055,
            KeyboardKey::Insert => 0x0056,
            KeyboardKey::ContextMenu => 0x0057,
            KeyboardKey::PageDown => 0x0058,
            KeyboardKey::PageUp => 0x0059,
            KeyboardKey::Pause => 0x005a,
            KeyboardKey::Space => 0x005b,
            KeyboardKey::Tab => 0x005c,
            KeyboardKey::NumLock => 0x005d,
            KeyboardKey::CapsLock => 0x005e,
            KeyboardKey::ScrollLock => 0x005f,
            KeyboardKey::LeftShift => 0x0060,
            KeyboardKey::RightShift => 0x0061,
            KeyboardKey::LeftControl => 0x0062,
            KeyboardKey::RightControl => 0x0063,
            KeyboardKey::Numpad0 => 0x0070,
            KeyboardKey::Numpad1 => 0x0071,
            KeyboardKey::Numpad2 => 0x0072,
            KeyboardKey::Numpad3 => 0x0073,
            KeyboardKey::Numpad4 => 0x0074,
            KeyboardKey::Numpad5 => 0x0075,
            KeyboardKey::Numpad6 => 0x0076,
            KeyboardKey::Numpad7 => 0x0077,
            KeyboardKey::Numpad8 => 0x0078,
            KeyboardKey::Numpad9 => 0x0079,
            KeyboardKey::NumpadDecimal => 0x007a,
            KeyboardKey::NumpadDivide => 0x007b,
            KeyboardKey::NumpadMultiply => 0x007c,
            KeyboardKey::NumpadSubtract => 0x007d,
            KeyboardKey::NumpadAdd => 0x007e,
            KeyboardKey::NumpadEnter => 0x007f,
            KeyboardKey::LeftAlt => 0x0080,
            KeyboardKey::RightAlt => 0x0081,
            KeyboardKey::LeftSuper => 0x0082,
            KeyboardKey::RightSuper => 0x0083,
        }
    }

    /// The key with the given code on the wire.
    pub fn from_wire(value: u16) -> (result: Result<KeyboardKey, DcError>)
        ensures
            match result {
                Ok(key) => KeyboardKey::of_code(value) == Some(key),
                Err(e) => KeyboardKey::of_code(value) is None && e@ == unknown_key(value),
            },
    {
        match value {
            0x0001 => Ok(KeyboardKey::Digit0),
            0x0002 => Ok(KeyboardKey::Digit1),
            0x0003 => Ok(KeyboardKey::Digit2),
            0x0004 => Ok(KeyboardKey::Digit3),
            0x0005 => Ok(KeyboardKey::Digit4),
            0x0006 => Ok(KeyboardKey::Digit5),
            0x0007 => Ok(KeyboardKey::Digit6),
            0x0008 => Ok(KeyboardKey::Digit7),
            0x0009 => Ok(KeyboardKey::Digit8),
            0x000a => Ok(KeyboardKey::Digit9),
            0x0010 => Ok(KeyboardKey::A),
            0x0011 => Ok(KeyboardKey::B),
            0x0012 => Ok(KeyboardKey::C),
            0x0013 => Ok(KeyboardKey::D),
            0x0014 => Ok(KeyboardKey::E),
            0x0015 => Ok(KeyboardKey::F),
            0x0016 => Ok(KeyboardKey::G),
            0x0017 => Ok(KeyboardKey::H),
            0x0018 => Ok(KeyboardKey::I),
            0x0019 => Ok(KeyboardKey::J),
            0x001a => Ok(KeyboardKey::K),
            0x001b => Ok(KeyboardKey::L),
            0x001c => Ok(KeyboardKey::M),
            0x001d => Ok(KeyboardKey::N),
            0x001e => Ok(KeyboardKey::O),
            0x001f => Ok(KeyboardKey::P),
            0x0020 => Ok(KeyboardKey::Q),
            0x0021 => Ok(KeyboardKey::R),
            0x0022 => Ok(KeyboardKey::S),
            0x0023 => Ok(KeyboardKey::T),
            0x0024 => Ok(KeyboardKey::U),
            0x0025 => Ok(KeyboardKey::V),
            0x0026 => Ok(KeyboardKey::W),
            0x0027 => Ok(KeyboardKey::X),
            0x0028 => Ok(KeyboardKey::Y),
            0x0029 => Ok(KeyboardKey::Z),
            0x0030 => Ok(KeyboardKey::F1),
            0x0031 => Ok(KeyboardKey::F2),
            0x0032 => Ok(KeyboardKey::F3),
            0x0033 => Ok(KeyboardKey::F4),
            0x0034 => Ok(KeyboardKey::F5),
            0x0035 => Ok(KeyboardKey::F6),
            0x0036 => Ok(KeyboardKey::F7),
            0x0037 => Ok(KeyboardKey::F8),
            0x0038 => Ok(KeyboardKey::F9),
            0x0039 => Ok(KeyboardKey::F10),
            0x003a => Ok(KeyboardKey::F11),
            0x003b => Ok(KeyboardKey::F12),
            0x003c => Ok(KeyboardKey::F13),
            0x003d => Ok(KeyboardKey::F14),
            0x003e => Ok(KeyboardKey::F15),
            0x0040 => Ok(KeyboardKey::ArrowDown),
            0x0041 => Ok(KeyboardKey::ArrowLeft),
            0x0042 => Ok(KeyboardKey::ArrowRight),
            0x0043 => Ok(KeyboardKey::ArrowUp),
            0x0044 => Ok(KeyboardKey::Apostrophe),
            0x0045 => Ok(KeyboardKey::Backquote),
            0x0046 => Ok(KeyboardKey::Backslash),
            0x0047 => Ok(KeyboardKey::Comma),
            0x0048 => Ok(KeyboardKey::Equal),
            0x0049 => Ok(KeyboardKey::LeftBracket),
            0x004a => Ok(KeyboardKey::Minus),
            0x004b => Ok(KeyboardKey::Period),
            0x004c => Ok(KeyboardKey::RightBracket),
            0x004d => Ok(KeyboardKey::Semicolon),
            0x004e => Ok(KeyboardKey::Slash),
            0x0050 => Ok(KeyboardKey::Backspace),
            0x0051 => Ok(KeyboardKey::Delete),
            0x0052 => Ok(KeyboardKey::End),
            0x0053 => Ok(KeyboardKey::Enter),
            0x0054 => Ok(KeyboardKey::Escape),
            0x0055 => Ok(KeyboardKey::Home),
            0x0056 => Ok(KeyboardKey::Insert),
            0x0057 => Ok(KeyboardKey::ContextMenu),
            0x0058 => Ok(KeyboardKey::PageDown),
            0x0059 => Ok(KeyboardKey::PageUp),
            0x005a => Ok(KeyboardKey::Pause),
            0x005b => Ok(KeyboardKey::Space),
            0x005c => Ok(KeyboardKey::Tab),
            0x005d => Ok(KeyboardKey::NumLock),
            0x005e => Ok(KeyboardKey::CapsLock),
            0x005f => Ok(KeyboardKey::ScrollLock),
            0x0060 => Ok(KeyboardKey::LeftShift),
            0x0061 => Ok(KeyboardKey::RightShift),
            0x0062 => Ok(KeyboardKey::LeftControl),
            0x0063 => Ok(KeyboardKey::RightControl),
            0x0070 => Ok(KeyboardKey::Numpad0),
            0x0071 => Ok(KeyboardKey::Numpad1),
            0x0072 => Ok(KeyboardKey::Numpad2),
            0x0073 => Ok(KeyboardKey::Numpad3),
            0x0074 => Ok(KeyboardKey::Numpad4),
            0x0075 => Ok(KeyboardKey::Numpad5),
            0x0076 => Ok(KeyboardKey::Numpad6),
            0x0077 => Ok(KeyboardKey::Numpad7),
            0x0078 => Ok(KeyboardKey::Numpad8),
            0x0079 => Ok(KeyboardKey::Numpad9),
            0x007a => Ok(KeyboardKey::NumpadDecimal),
            0x007b => Ok(KeyboardKey::NumpadDivide),
            0x007c => Ok(KeyboardKey::NumpadMultiply),
            0x007d => Ok(KeyboardKey::NumpadSubtract),
            0x007e => Ok(KeyboardKey::NumpadAdd),
            0x007f => Ok(KeyboardKey::NumpadEnter),
            0x0080 => Ok(KeyboardKey::LeftAlt),
            0x0081 => Ok(KeyboardKey::RightAlt),
            0x0082 => Ok(KeyboardKey::LeftSuper),
            0x0083 => Ok(KeyboardKey::RightSuper),
            _ => Err(DcError::Codec(with_number("unknown keyboard key ", value as u64))),
        }
    }
}

/// The failure for a code that no key has.
pub open spec fn unknown_key(value: u16) -> DcErrorView {
    DcErrorView::Codec("unknown keyboard key "@ + decimal(value as nat))
}

/// The key of a key's code is that key; so two keys never share a code.
pub proof fn law_key_of_code(key: KeyboardKey)
    ensures
        KeyboardKey::of_code(key.code()) == Some(key),
{
}

/// A code that stands for a key is the code of that key.
pub proof fn law_code_of_key(value: u16)
    ensures
        KeyboardKey::of_code(value) matches Some(key) ==> key.code() == value,
{
}

/// The digits of a keyboard's main block, from zero on.
pub open spec fn digits() -> Seq<KeyboardKey> {
    seq![
        KeyboardKey::Digit0,
        KeyboardKey::Digit1,
        KeyboardKey::Digit2,
        KeyboardKey::Digit3,
        KeyboardKey::Digit4,
        KeyboardKey::Digit5,
        KeyboardKey::Digit6,
        KeyboardKey::Digit7,
        KeyboardKey::Digit8,
        KeyboardKey::Digit9,
    ]
}

/// The letters, in the order of the alphabet.
pub open spec fn letters() -> Seq<KeyboardKey> {
    seq![
        KeyboardKey::A,
        KeyboardKey::B,
        KeyboardKey::C,
        KeyboardKey::D,
        KeyboardKey::E,
        KeyboardKey::F,
        KeyboardKey::G,
        KeyboardKey::H,
        KeyboardKey::I,
        KeyboardKey::J,
        KeyboardKey::K,
        KeyboardKey::L,
        KeyboardKey::M,
        KeyboardKey::N,
        KeyboardKey::O,
        KeyboardKey::P,
        KeyboardKey::Q,
        KeyboardKey::R,
        KeyboardKey::S,
        KeyboardKey::T,
        KeyboardKey::U,
        KeyboardKey::V,
        KeyboardKey::W,
        KeyboardKey::X,
        KeyboardKey::Y,
        KeyboardKey::Z,
    ]
}

/// The function keys.
pub open spec fn function_keys() -> Seq<KeyboardKey> {
    seq![
        KeyboardKey::F1,
        KeyboardKey::F2,
        KeyboardKey::F3,
        KeyboardKey::F4,
        KeyboardKey::F5,
        KeyboardKey::F6,
        KeyboardKey::F7,
        KeyboardKey::F8,
        KeyboardKey::F9,
        KeyboardKey::F10,
        KeyboardKey::F11,
        KeyboardKey::F12,
        KeyboardKey::F13,
        KeyboardKey::F14,
        KeyboardKey::F15,
    ]
}

/// The arrows and the signs.
pub open spec fn signs() -> Seq<KeyboardKey> {
    seq![
        KeyboardKey::ArrowDown,
        KeyboardKey::ArrowLeft,
        KeyboardKey::ArrowRight,
        KeyboardKey::ArrowUp,
        KeyboardKey::Apostrophe,
        KeyboardKey::Backquote,
        KeyboardKey::Backslash,
        KeyboardKey::Comma,
        KeyboardKey::Equal,
        KeyboardKey::LeftBracket,
        KeyboardKey::Minus,
        KeyboardKey::Period,
        KeyboardKey::RightBracket,
        KeyboardKey::Semicolon,
        KeyboardKey::Slash,
    ]
}

/// The keys that edit and the locks.
pub open spec fn editing_keys() -> Seq<KeyboardKey> {
    seq![
        KeyboardKey::Backspace,
        KeyboardKey::Delete,
        KeyboardKey::End,
        KeyboardKey::Enter,
        KeyboardKey::Escape,
        KeyboardKey::Home,
        KeyboardKey::Insert,
        KeyboardKey::ContextMenu,
        KeyboardKey::PageDown,
        KeyboardKey::PageUp,
        KeyboardKey::Pause,
        KeyboardKey::Space,
        KeyboardKey::Tab,
        KeyboardKey::NumLock,
        KeyboardKey::CapsLock,
        KeyboardKey::ScrollLock,
    ]
}

/// The keys that are held with another, left before right.
pub open spec fn held_keys() -> Seq<KeyboardKey> {
    seq![
        KeyboardKey::LeftShift,
        KeyboardKey::RightShift,
        KeyboardKey::LeftControl,
        KeyboardKey::RightControl,
    ]
}

/// The number pad, its digits from zero on.
pub open spec fn number_pad_keys() -> Seq<KeyboardKey> {
    seq![
        KeyboardKey::Numpad0,
        KeyboardKey::Numpad1,
        KeyboardKey::Numpad2,
        KeyboardKey::Numpad3,
        KeyboardKey::Numpad4,
        KeyboardKey::Numpad5,
        KeyboardKey::Numpad6,
        KeyboardKey::Numpad7,
        KeyboardKey::Numpad8,
        KeyboardKey::Numpad9,
        KeyboardKey::NumpadDecimal,
        KeyboardKey::NumpadDivide,
        KeyboardKey::NumpadMultiply,
        KeyboardKey::NumpadSubtract,
        KeyboardKey::NumpadAdd,
        KeyboardKey::NumpadEnter,
    ]
}

/// The keys beside the space bar, left before right.
pub open spec fn outer_keys() -> Seq<KeyboardKey> {
    seq![
        KeyboardKey::LeftAlt,
        KeyboardKey::RightAlt,
        KeyboardKey::LeftSuper,
        KeyboardKey::RightSuper,
    ]
}

/// The keys have the codes of a fixed table, consecutive in each group: the digits from 1 on, the
/// letters from 16, the function keys from 48, the arrows and signs from 64, the keys that edit from
/// 80, the shift and control keys from 96, the number pad from 112, the keys beside the space bar
/// from 128. A code outside the groups belongs to no key.
pub proof fn law_codes_follow_the_table(index: int, value: u16)
    ensures
        0 <= index < digits().len() ==> digits()[index].code() == 0x1 + index && KeyboardKey::of_code(
            digits()[index].code(),
        ) == Some(digits()[index]),
        0 <= index < letters().len() ==> letters()[index].code() == 0x10 + index && KeyboardKey::of_code(
            letters()[index].code(),
        ) == Some(letters()[index]),
        0 <= index < function_keys().len() ==> function_keys()[index].code() == 0x30 + index && KeyboardKey::of_code(
            function_keys()[index].code(),
        ) == Some(function_keys()[index]),
        0 <= index < signs().len() ==> signs()[index].code() == 0x40 + index && KeyboardKey::of_code(
            signs()[index].code(),
        ) == Some(signs()[index]),
        0 <= index < editing_keys().len() ==> editing_keys()[index].code() == 0x50 + index && KeyboardKey::of_code(
            editing_keys()[index].code(),
        ) == Some(editing_keys()[index]),
        0 <= index < held_keys().len() ==> held_keys()[index].code() == 0x60 + index && KeyboardKey::of_code(
            held_keys()[index].code(),
        ) == Some(held_keys()[index]),
        0 <= index < number_pad_keys().len() ==> number_pad_keys()[index].code() == 0x70 + index && KeyboardKey::of_code(
            number_pad_keys()[index].code(),
        ) == Some(number_pad_keys()[index]),
        0 <= index < outer_keys().len() ==> outer_keys()[index].code() == 0x80 + index && KeyboardKey::of_code(
            outer_keys()[index].code(),
        ) == Some(outer_keys()[index]),
        KeyboardKey::of_code(value) is Some <==> {
            ||| 0x01 <= value <= 0x0a
            ||| 0x10 <= value <= 0x29
            ||| 0x30 <= value <= 0x3e
            ||| 0x40 <= value <= 0x4e
            ||| 0x50 <= value <= 0x63
            ||| 0x70 <= value <= 0x83
        },
{
}

} // verus!
