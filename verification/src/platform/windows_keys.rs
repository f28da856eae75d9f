//! The codes by which Windows knows a physical key.
use crate::protocol::KeyboardKey;
use vstd::prelude::*;

verus! {

/// The flag of a key whose code has the extended prefix.
pub const KEYEVENTF_EXTENDEDKEY: u32 = 0x0001;

/// The flag of a key that is let go.
pub const KEYEVENTF_KEYUP: u32 = 0x0002;

/// The flag of a key that is named by its scan code.
pub const KEYEVENTF_SCANCODE: u32 = 0x0008;

/// How Windows names a physical key: by its set-one scan code, or where that set has none, by a
/// virtual key.
#[derive(Clone, Copy, Debug, Eq, PartialEq, Structural)]
pub enum WindowsKeyMapping {
    Scan { code: u16, extended: bool },
    Virtual { code: u16 },
}

/// The name of a key.
pub open spec fn key_mapping(key: KeyboardKey) -> WindowsKeyMapping {
    match key {
        KeyboardKey::Digit0 => WindowsKeyMapping::Scan { code: 0x0b, extended: false },
        KeyboardKey::Digit1 => WindowsKeyMapping::Scan { code: 0x02, extended: false },
        KeyboardKey::Digit2 => WindowsKeyMapping::Scan { code: 0x03, extended: false },
        KeyboardKey::Digit3 => WindowsKeyMapping::Scan { code: 0x04, extended: false },
        KeyboardKey::Digit4 => WindowsKeyMapping::Scan { code: 0x05, extended: false },
        KeyboardKey::Digit5 => WindowsKeyMapping::Scan { code: 0x06, extended: false },
        KeyboardKey::Digit6 => WindowsKeyMapping::Scan { code: 0x07, extended: false },
        KeyboardKey::Digit7 => WindowsKeyMapping::Scan { code: 0x08, extended: false },
        KeyboardKey::Digit8 => WindowsKeyMapping::Scan { code: 0x09, extended: false },
        KeyboardKey::Digit9 => WindowsKeyMapping::Scan { code: 0x0a, extended: false },
        KeyboardKey::A => WindowsKeyMapping::Scan { code: 0x1e, extended: false },
        KeyboardKey::B => WindowsKeyMapping::Scan { code: 0x30, extended: false },
        KeyboardKey::C => WindowsKeyMapping::Scan { code: 0x2e, extended: false },
        KeyboardKey::D => WindowsKeyMapping::Scan { code: 0x20, extended: false },
        KeyboardKey::E => WindowsKeyMapping::Scan { code: 0x12, extended: false },
        KeyboardKey::F => WindowsKeyMapping::Scan { code: 0x21, extended: false },
        KeyboardKey::G => WindowsKeyMapping::Scan { code: 0x22, extended: false },
        KeyboardKey::H => WindowsKeyMapping::Scan { code: 0x23, extended: false },
        KeyboardKey::I => WindowsKeyMapping::Scan { code: 0x17, extended: false },
        KeyboardKey::J => WindowsKeyMapping::Scan { code: 0x24, extended: false },
        KeyboardKey::K => WindowsKeyMapping::Scan { code: 0x25, extended: false },
        KeyboardKey::L => WindowsKeyMapping::Scan { code: 0x26, extended: false },
        KeyboardKey::M => WindowsKeyMapping::Scan { code: 0x32, extended: false },
        KeyboardKey::N => WindowsKeyMapping::Scan { code: 0x31, extended: false },
        KeyboardKey::O => WindowsKeyMapping::Scan { code: 0x18, extended: false },
        KeyboardKey::P => WindowsKeyMapping::Scan { code: 0x19, extended: false },
        KeyboardKey::Q => WindowsKeyMapping::Scan { code: 0x10, extended: false },
        KeyboardKey::R => WindowsKeyMapping::Scan { code: 0x13, extended: false },
        KeyboardKey::S => WindowsKeyMapping::Scan { code: 0x1f, extended: false },
        KeyboardKey::T => WindowsKeyMapping::Scan { code: 0x14, extended: false },
        KeyboardKey::U => WindowsKeyMapping::Scan { code: 0x16, extended: false },
        KeyboardKey::V => WindowsKeyMapping::Scan { code: 0x2f, extended: false },
        KeyboardKey::W => WindowsKeyMapping::Scan { code: 0x11, extended: false },
        KeyboardKey::X => WindowsKeyMapping::Scan { code: 0x2d, extended: false },
        KeyboardKey::Y => WindowsKeyMapping::Scan { code: 0x15, extended: false },
        KeyboardKey::Z => WindowsKeyMapping::Scan { code: 0x2c, extended: false },
        KeyboardKey::F1 => WindowsKeyMapping::Scan { code: 0x3b, extended: false },
        KeyboardKey::F2 => WindowsKeyMapping::Scan { code: 0x3c, extended: false },
        KeyboardKey::F3 => WindowsKeyMapping::Scan { code: 0x3d, extended: false },
        KeyboardKey::F4 => WindowsKeyMapping::Scan { code: 0x3e, extended: false },
        KeyboardKey::F5 => WindowsKeyMapping::Scan { code: 0x3f, extended: false },
        KeyboardKey::F6 => WindowsKeyMapping::Scan { code: 0x40, extended: false },
        KeyboardKey::F7 => WindowsKeyMapping::Scan { code: 0x41, extended: false },
        KeyboardKey::F8 => WindowsKeyMapping::Scan { code: 0x42, extended: false },
        KeyboardKey::F9 => WindowsKeyMapping::Scan { code: 0x43, extended: false },
        KeyboardKey::F10 => WindowsKeyMapping::Scan { code: 0x44, extended: false },
        KeyboardKey::F11 => WindowsKeyMapping::Scan { code: 0x57, extended: false },
        KeyboardKey::F12 => WindowsKeyMapping::Scan { code: 0x58, extended: false },
        KeyboardKey::F13 => WindowsKeyMapping::Virtual { code: 0x7c },
        KeyboardKey::F14 => WindowsKeyMapping::Virtual { code: 0x7d },
        KeyboardKey::F15 => WindowsKeyMapping::Virtual { code: 0x7e },
        KeyboardKey::ArrowDown => WindowsKeyMapping::Scan { code: 0x50, extended: true },
        KeyboardKey::ArrowLeft => WindowsKeyMapping::Scan { code: 0x4b, extended: true },
        KeyboardKey::ArrowRight => WindowsKeyMapping::Scan { code: 0x4d, extended: true },
        KeyboardKey::ArrowUp => WindowsKeyMapping::Scan { code: 0x48, extended: true },
        KeyboardKey::Apostrophe => WindowsKeyMapping::Scan { code: 0x28, extended: false },
        KeyboardKey::Backquote => WindowsKeyMapping::Scan { code: 0x29, extended: false },
        KeyboardKey::Backslash => WindowsKeyMapping::Scan { code: 0x2b, extended: false },
        KeyboardKey::Comma => WindowsKeyMapping::Scan { code: 0x33, extended: false },
        KeyboardKey::Equal => WindowsKeyMapping::Scan { code: 0x0d, extended: false },
        KeyboardKey::LeftBracket => WindowsKeyMapping::Scan { code: 0x1a, extended: false },
        KeyboardKey::Minus => WindowsKeyMapping::Scan { code: 0x0c, extended: false },
        KeyboardKey::Period => WindowsKeyMapping::Scan { code: 0x34, extended: false },
        KeyboardKey::RightBracket => WindowsKeyMapping::Scan { code: 0x1b, extended: false },
        KeyboardKey::Semicolon => WindowsKeyMapping::Scan { code: 0x27, extended: false },
        KeyboardKey::Slash => WindowsKeyMapping::Scan { code: 0x35, extended: false },
        KeyboardKey::Backspace => WindowsKeyMapping::Scan { code: 0x0e, extended: false },
        KeyboardKey::Delete => WindowsKeyMapping::Scan { code: 0x53, extended: true },
        KeyboardKey::End => WindowsKeyMapping::Scan { code: 0x4f, extended: true },
        KeyboardKey::Enter => WindowsKeyMapping::Scan { code: 0x1c, extended: false },
        KeyboardKey::Escape => WindowsKeyMapping::Scan { code: 0x01, extended: false },
        KeyboardKey::Home => WindowsKeyMapping::Scan { code: 0x47, extended: true },
        KeyboardKey::Insert => WindowsKeyMapping::Scan { code: 0x52, extended: true },
        KeyboardKey::ContextMenu => WindowsKeyMapping::Scan { code: 0x5d, extended: true },
        KeyboardKey::PageDown => WindowsKeyMapping::Scan { code: 0x51, extended: true },
        KeyboardKey::PageUp => WindowsKeyMapping::Scan { code: 0x49, extended: true },
        KeyboardKey::Pause => WindowsKeyMapping::Virtual { code: 0x13 },
        KeyboardKey::Space => WindowsKeyMapping::Scan { code: 0x39, extended: false },
        KeyboardKey::Tab => WindowsKeyMapping::Scan { code: 0x0f, extended: false },
        KeyboardKey::NumLock => WindowsKeyMapping::Scan { code: 0x45, extended: true },
        KeyboardKey::CapsLock => WindowsKeyMapping::Scan { code: 0x3a, extended: false },
        KeyboardKey::ScrollLock => WindowsKeyMapping::Scan { code: 0x46, extended: false },
        KeyboardKey::LeftShift => WindowsKeyMapping::Scan { code: 0x2a, extended: false },
        KeyboardKey::RightShift => WindowsKeyMapping::Scan { code: 0x36, extended: false },
        KeyboardKey::LeftControl => WindowsKeyMapping::Scan { code: 0x1d, extended: false },
        KeyboardKey::RightControl => WindowsKeyMapping::Scan { code: 0x1d, extended: true },
        KeyboardKey::Numpad0 => WindowsKeyMapping::Scan { code: 0x52, extended: false },
        KeyboardKey::Numpad1 => WindowsKeyMapping::Scan { code: 0x4f, extended: false },
        KeyboardKey::Numpad2 => WindowsKeyMapping::Scan { code: 0x50, extended: false },
        KeyboardKey::Numpad3 => WindowsKeyMapping::Scan { code: 0x51, extended: false },
        KeyboardKey::Numpad4 => WindowsKeyMapping::Scan { code: 0x4b, extended: false },
        KeyboardKey::Numpad5 => WindowsKeyMapping::Scan { code: 0x4c, extended: false },
        KeyboardKey::Numpad6 => WindowsKeyMapping::Scan { code: 0x4d, extended: false },
        KeyboardKey::Numpad7 => WindowsKeyMapping::Scan { code: 0x47, extended: false },
        KeyboardKey::Numpad8 => WindowsKeyMapping::Scan { code: 0x48, extended: false },
        KeyboardKey::Numpad9 => WindowsKeyMapping::Scan { code: 0x49, extended: false },
        KeyboardKey::NumpadDecimal => WindowsKeyMapping::Scan { code: 0x53, extended: false },
        KeyboardKey::NumpadDivide => WindowsKeyMapping::Scan { code: 0x35, extended: true },
        KeyboardKey::NumpadMultiply => WindowsKeyMapping::Scan { code: 0x37, extended: false },
        KeyboardKey::NumpadSubtract => WindowsKeyMapping::Scan { code: 0x4a, extended: false },
        KeyboardKey::NumpadAdd => WindowsKeyMapping::Scan { code: 0x4e, extended: false },
        KeyboardKey::NumpadEnter => WindowsKeyMapping::Scan { code: 0x1c, extended: true },
        KeyboardKey::LeftAlt => WindowsKeyMapping::Scan { code: 0x38, extended: false },
        KeyboardKey::RightAlt => WindowsKeyMapping::Scan { code: 0x38, extended: true },
        KeyboardKey::LeftSuper => WindowsKeyMapping::Scan { code: 0x5b, extended: true },
        KeyboardKey::RightSuper => WindowsKeyMapping::Scan { code: 0x5c, extended: true },
    }
}

/// Looks up how Windows names a key.
pub fn windows_key_mapping(key: KeyboardKey) -> (mapping: WindowsKeyMapping)
    ensures
        mapping == key_mapping(key),
{
    match key {
        KeyboardKey::Digit0 => WindowsKeyMapping::Scan { code: 0x0b, extended: false },
        KeyboardKey::Digit1 => WindowsKeyMapping::Scan { code: 0x02, extended: false },
        KeyboardKey::Digit2 => WindowsKeyMapping::Scan { code: 0x03, extended: false },
        KeyboardKey::Digit3 => WindowsKeyMapping::Scan { code: 0x04, extended: false },
        KeyboardKey::Digit4 => WindowsKeyMapping::Scan { code: 0x05, extended: false },
        KeyboardKey::Digit5 => WindowsKeyMapping::Scan { code: 0x06, extended: false },
        KeyboardKey::Digit6 => WindowsKeyMapping::Scan { code: 0x07, extended: false },
        KeyboardKey::Digit7 => WindowsKeyMapping::Scan { code: 0x08, extended: false },
        KeyboardKey::Digit8 => WindowsKeyMapping::Scan { code: 0x09, extended: false },
        KeyboardKey::Digit9 => WindowsKeyMapping::Scan { code: 0x0a, extended: false },
        KeyboardKey::A => WindowsKeyMapping::Scan { code: 0x1e, extended: false },
        KeyboardKey::B => WindowsKeyMapping::Scan { code: 0x30, extended: false },
        KeyboardKey::C => WindowsKeyMapping::Scan { code: 0x2e, extended: false },
        KeyboardKey::D => WindowsKeyMapping::Scan { code: 0x20, extended: false },
        KeyboardKey::E => WindowsKeyMapping::Scan { code: 0x12, extended: false },
        KeyboardKey::F => WindowsKeyMapping::Scan { code: 0x21, extended: false },
        KeyboardKey::G => WindowsKeyMapping::Scan { code: 0x22, extended: false },
        KeyboardKey::H => WindowsKeyMapping::Scan { code: 0x23, extended: false },
        KeyboardKey::I => WindowsKeyMapping::Scan { code: 0x17, extended: false },
        KeyboardKey::J => WindowsKeyMapping::Scan { code: 0x24, extended: false },
        KeyboardKey::K => WindowsKeyMapping::Scan { code: 0x25, extended: false },
        KeyboardKey::L => WindowsKeyMapping::Scan { code: 0x26, extended: false },
        KeyboardKey::M => WindowsKeyMapping::Scan { code: 0x32, extended: false },
        KeyboardKey::N => WindowsKeyMapping::Scan { code: 0x31, extended: false },
        KeyboardKey::O => WindowsKeyMapping::Scan { code: 0x18, extended: false },
        KeyboardKey::P => WindowsKeyMapping::Scan { code: 0x19, extended: false },
        KeyboardKey::Q => WindowsKeyMapping::Scan { code: 0x10, extended: false },
        KeyboardKey::R => WindowsKeyMapping::Scan { code: 0x13, extended: false },
        KeyboardKey::S => WindowsKeyMapping::Scan { code: 0x1f, extended: false },
        KeyboardKey::T => WindowsKeyMapping::Scan { code: 0x14, extended: false },
        KeyboardKey::U => WindowsKeyMapping::Scan { code: 0x16, extended: false },
        KeyboardKey::V => WindowsKeyMapping::Scan { code: 0x2f, extended: false },
        KeyboardKey::W => WindowsKeyMapping::Scan { code: 0x11, extended: false },
        KeyboardKey::X => WindowsKeyMapping::Scan { code: 0x2d, extended: false },
        KeyboardKey::Y => WindowsKeyMapping::Scan { code: 0x15, extended: false },
        KeyboardKey::Z => WindowsKeyMapping::Scan { code: 0x2c, extended: false },
        KeyboardKey::F1 => WindowsKeyMapping::Scan { code: 0x3b, extended: false },
        KeyboardKey::F2 => WindowsKeyMapping::Scan { code: 0x3c, extended: false },
        KeyboardKey::F3 => WindowsKeyMapping::Scan { code: 0x3d, extended: false },
        KeyboardKey::F4 => WindowsKeyMapping::Scan { code: 0x3e, extended: false },
        KeyboardKey::F5 => WindowsKeyMapping::Scan { code: 0x3f, extended: false },
        KeyboardKey::F6 => WindowsKeyMapping::Scan { code: 0x40, extended: false },
        KeyboardKey::F7 => WindowsKeyMapping::Scan { code: 0x41, extended: false },
        KeyboardKey::F8 => WindowsKeyMapping::Scan { code: 0x42, extended: false },
        KeyboardKey::F9 => WindowsKeyMapping::Scan { code: 0x43, extended: false },
        KeyboardKey::F10 => WindowsKeyMapping::Scan { code: 0x44, extended: false },
        KeyboardKey::F11 => WindowsKeyMapping::Scan { code: 0x57, extended: false },
        KeyboardKey::F12 => WindowsKeyMapping::Scan { code: 0x58, extended: false },
        KeyboardKey::F13 => WindowsKeyMapping::Virtual { code: 0x7c },
        KeyboardKey::F14 => WindowsKeyMapping::Virtual { code: 0x7d },
        KeyboardKey::F15 => WindowsKeyMapping::Virtual { code: 0x7e },
        KeyboardKey::ArrowDown => WindowsKeyMapping::Scan { code: 0x50, extended: true },
        KeyboardKey::ArrowLeft => WindowsKeyMapping::Scan { code: 0x4b, extended: true },
        KeyboardKey::ArrowRight => WindowsKeyMapping::Scan { code: 0x4d, extended: true },
        KeyboardKey::ArrowUp => WindowsKeyMapping::Scan { code: 0x48, extended: true },
        KeyboardKey::Apostrophe => WindowsKeyMapping::Scan { code: 0x28, extended: false },
        KeyboardKey::Backquote => WindowsKeyMapping::Scan { code: 0x29, extended: false },
        KeyboardKey::Backslash => WindowsKeyMapping::Scan { code: 0x2b, extended: false },
        KeyboardKey::Comma => WindowsKeyMapping::Scan { code: 0x33, extended: false },
        KeyboardKey::Equal => WindowsKeyMapping::Scan { code: 0x0d, extended: false },
        KeyboardKey::LeftBracket => WindowsKeyMapping::Scan { code: 0x1a, extended: false },
        KeyboardKey::Minus => WindowsKeyMapping::Scan { code: 0x0c, extended: false },
        KeyboardKey::Period => WindowsKeyMapping::Scan { code: 0x34, extended: false },
        KeyboardKey::RightBracket => WindowsKeyMapping::Scan { code: 0x1b, extended: false },
        KeyboardKey::Semicolon => WindowsKeyMapping::Scan { code: 0x27, extended: false },
        KeyboardKey::Slash => WindowsKeyMapping::Scan { code: 0x35, extended: false },
        KeyboardKey::Backspace => WindowsKeyMapping::Scan { code: 0x0e, extended: false },
        KeyboardKey::Delete => WindowsKeyMapping::Scan { code: 0x53, extended: true },
        KeyboardKey::End => WindowsKeyMapping::Scan { code: 0x4f, extended: true },
        KeyboardKey::Enter => WindowsKeyMapping::Scan { code: 0x1c, extended: false },
        KeyboardKey::Escape => WindowsKeyMapping::Scan { code: 0x01, extended: false },
        KeyboardKey::Home => WindowsKeyMapping::Scan { code: 0x47, extended: true },
        KeyboardKey::Insert => WindowsKeyMapping::Scan { code: 0x52, extended: true },
        KeyboardKey::ContextMenu => WindowsKeyMapping::Scan { code: 0x5d, extended: true },
        KeyboardKey::PageDown => WindowsKeyMapping::Scan { code: 0x51, extended: true },
        KeyboardKey::PageUp => WindowsKeyMapping::Scan { code: 0x49, extended: true },
        KeyboardKey::Pause => WindowsKeyMapping::Virtual { code: 0x13 },
        KeyboardKey::Space => WindowsKeyMapping::Scan { code: 0x39, extended: false },
        KeyboardKey::Tab => WindowsKeyMapping::Scan { code: 0x0f, extended: false },
        KeyboardKey::NumLock => WindowsKeyMapping::Scan { code: 0x45, extended: true },
        KeyboardKey::CapsLock => WindowsKeyMapping::Scan { code: 0x3a, extended: false },
        KeyboardKey::ScrollLock => WindowsKeyMapping::Scan { code: 0x46, extended: false },
        KeyboardKey::LeftShift => WindowsKeyMapping::Scan { code: 0x2a, extended: false },
        KeyboardKey::RightShift => WindowsKeyMapping::Scan { code: 0x36, extended: false },
        KeyboardKey::LeftControl => WindowsKeyMapping::Scan { code: 0x1d, extended: false },
        KeyboardKey::RightControl => WindowsKeyMapping::Scan { code: 0x1d, extended: true },
        KeyboardKey::Numpad0 => WindowsKeyMapping::Scan { code: 0x52, extended: false },
        KeyboardKey::Numpad1 => WindowsKeyMapping::Scan { code: 0x4f, extended: false },
        KeyboardKey::Numpad2 => WindowsKeyMapping::Scan { code: 0x50, extended: false },
        KeyboardKey::Numpad3 => WindowsKeyMapping::Scan { code: 0x51, extended: false },
        KeyboardKey::Numpad4 => WindowsKeyMapping::Scan { code: 0x4b, extended: false },
        KeyboardKey::Numpad5 => WindowsKeyMapping::Scan { code: 0x4c, extended: false },
        KeyboardKey::Numpad6 => WindowsKeyMapping::Scan { code: 0x4d, extended: false },
        KeyboardKey::Numpad7 => WindowsKeyMapping::Scan { code: 0x47, extended: false },
        KeyboardKey::Numpad8 => WindowsKeyMapping::Scan { code: 0x48, extended: false },
        KeyboardKey::Numpad9 => WindowsKeyMapping::Scan { code: 0x49, extended: false },
        KeyboardKey::NumpadDecimal => WindowsKeyMapping::Scan { code: 0x53, extended: false },
        KeyboardKey::NumpadDivide => WindowsKeyMapping::Scan { code: 0x35, extended: true },
        KeyboardKey::NumpadMultiply => WindowsKeyMapping::Scan { code: 0x37, extended: false },
        KeyboardKey::NumpadSubtract => WindowsKeyMapping::Scan { code: 0x4a, extended: false },
        KeyboardKey::NumpadAdd => WindowsKeyMapping::Scan { code: 0x4e, extended: false },
        KeyboardKey::NumpadEnter => WindowsKeyMapping::Scan { code: 0x1c, extended: true },
        KeyboardKey::LeftAlt => WindowsKeyMapping::Scan { code: 0x38, extended: false },
        KeyboardKey::RightAlt => WindowsKeyMapping::Scan { code: 0x38, extended: true },
        KeyboardKey::LeftSuper => WindowsKeyMapping::Scan { code: 0x5b, extended: true },
        KeyboardKey::RightSuper => WindowsKeyMapping::Scan { code: 0x5c, extended: true },
    }
}

/// A keyboard event as Windows takes it.
#[derive(Clone, Copy, Debug, Eq, PartialEq, Structural)]
pub struct KeyInput {
    pub virtual_key: u16,
    pub scan_code: u16,
    pub flags: u32,
}

/// The event of a key that goes down or up. Each flag counts once, so that they add up.
pub open spec fn key_input(key: KeyboardKey, pressed: bool) -> KeyInput {
    let up: int = if pressed {
        0
    } else {
        KEYEVENTF_KEYUP as int
    };
    match key_mapping(key) {
        WindowsKeyMapping::Scan { code, extended } => KeyInput {
            virtual_key: 0,
            scan_code: code,
            flags: (up + KEYEVENTF_SCANCODE + if extended {
                KEYEVENTF_EXTENDEDKEY as int
            } else {
                0
            }) as u32,
        },
        WindowsKeyMapping::Virtual { code } => KeyInput {
            virtual_key: code,
            scan_code: 0,
            flags: up as u32,
        },
    }
}

/// The event of a key that goes down or up.
pub fn windows_key_input(key: KeyboardKey, pressed: bool) -> (input: KeyInput)
    ensures
        input == key_input(key, pressed),
{
    let up: u32 = if pressed {
        0
    } else {
        KEYEVENTF_KEYUP
    };
    match windows_key_mapping(key) {
        WindowsKeyMapping::Scan { code, extended } => {
            let prefix: u32 = if extended {
                KEYEVENTF_EXTENDEDKEY
            } else {
                0
            };
            KeyInput { virtual_key: 0, scan_code: code, flags: up + KEYEVENTF_SCANCODE + prefix }
        },
        WindowsKeyMapping::Virtual { code } => KeyInput {
            virtual_key: code,
            scan_code: 0,
            flags: up,
        },
    }
}

/// The event names the key and the direction: two different key movements never look alike.
pub proof fn law_key_events_are_told_apart(
    first: KeyboardKey,
    first_pressed: bool,
    second: KeyboardKey,
    second_pressed: bool,
)
    requires
        key_input(first, first_pressed) == key_input(second, second_pressed),
    ensures
        first == second,
        first_pressed == second_pressed,
{
    lemma_same_direction(first, first_pressed, second, second_pressed);
    lemma_same_mapping(first, second);
}

proof fn lemma_same_direction(
    first: KeyboardKey,
    first_pressed: bool,
    second: KeyboardKey,
    second_pressed: bool,
)
    requires
        key_input(first, first_pressed) == key_input(second, second_pressed),
    ensures
        first_pressed == second_pressed,
        key_mapping(first) == key_mapping(second),
{
    lemma_codes(first);
    lemma_codes(second);
}

proof fn lemma_codes(key: KeyboardKey)
    ensures
        match key_mapping(key) {
            WindowsKeyMapping::Scan { code, .. } => code > 0,
            WindowsKeyMapping::Virtual { code } => code > 0,
        },
{
}

/// The key of a name.
spec fn named_key(mapping: WindowsKeyMapping) -> KeyboardKey {
    match mapping {
        WindowsKeyMapping::Scan { code, extended: false } => if code == 0x0b {
            KeyboardKey::Digit0
        } else if code == 0x02 {
            KeyboardKey::Digit1
        } else if code == 0x03 {
            KeyboardKey::Digit2
        } else if code == 0x04 {
            KeyboardKey::Digit3
        } else if code == 0x05 {
            KeyboardKey::Digit4
        } else if code == 0x06 {
            KeyboardKey::Digit5
        } else if code == 0x07 {
            KeyboardKey::Digit6
        } else if code == 0x08 {
            KeyboardKey::Digit7
        } else if code == 0x09 {
            KeyboardKey::Digit8
        } else if code == 0x0a {
            KeyboardKey::Digit9
        } else if code == 0x1e {
            KeyboardKey::A
        } else if code == 0x30 {
            KeyboardKey::B
        } else if code == 0x2e {
            KeyboardKey::C
        } else if code == 0x20 {
            KeyboardKey::D
        } else if code == 0x12 {
            KeyboardKey::E
        } else if code == 0x21 {
            KeyboardKey::F
        } else if code == 0x22 {
            KeyboardKey::G
        } else if code == 0x23 {
            KeyboardKey::H
        } else if code == 0x17 {
            KeyboardKey::I
        } else if code == 0x24 {
            KeyboardKey::J
        } else if code == 0x25 {
            KeyboardKey::K
        } else if code == 0x26 {
            KeyboardKey::L
        } else if code == 0x32 {
            KeyboardKey::M
        } else if code == 0x31 {
            KeyboardKey::N
        } else if code == 0x18 {
            KeyboardKey::O
        } else if code == 0x19 {
            KeyboardKey::P
        } else if code == 0x10 {
            KeyboardKey::Q
        } else if code == 0x13 {
            KeyboardKey::R
        } else if code == 0x1f {
            KeyboardKey::S
        } else if code == 0x14 {
            KeyboardKey::T
        } else if code == 0x16 {
            KeyboardKey::U
        } else if code == 0x2f {
            KeyboardKey::V
        } else if code == 0x11 {
            KeyboardKey::W
        } else if code == 0x2d {
            KeyboardKey::X
        } else if code == 0x15 {
            KeyboardKey::Y
        } else if code == 0x2c {
            KeyboardKey::Z
        } else if code == 0x3b {
            KeyboardKey::F1
        } else if code == 0x3c {
            KeyboardKey::F2
        } else if code == 0x3d {
            KeyboardKey::F3
        } else if code == 0x3e {
            KeyboardKey::F4
        } else if code == 0x3f {
            KeyboardKey::F5
        } else if code == 0x40 {
            KeyboardKey::F6
        } else if code == 0x41 {
            KeyboardKey::F7
        } else if code == 0x42 {
            KeyboardKey::F8
        } else if code == 0x43 {
            KeyboardKey::F9
        } else if code == 0x44 {
            KeyboardKey::F10
        } else if code == 0x57 {
            KeyboardKey::F11
        } else if code == 0x58 {
            KeyboardKey::F12
        } else if code == 0x28 {
            KeyboardKey::Apostrophe
        } else if code == 0x29 {
            KeyboardKey::Backquote
        } else if code == 0x2b {
            KeyboardKey::Backslash
        } else if code == 0x33 {
            KeyboardKey::Comma
        } else if code == 0x0d {
            KeyboardKey::Equal
        } else if code == 0x1a {
            KeyboardKey::LeftBracket
        } else if code == 0x0c {
            KeyboardKey::Minus
        } else if code == 0x34 {
            KeyboardKey::Period
        } else if code == 0x1b {
            KeyboardKey::RightBracket
        } else if code == 0x27 {
            KeyboardKey::Semicolon
        } else if code == 0x35 {
            KeyboardKey::Slash
        } else if code == 0x0e {
            KeyboardKey::Backspace
        } else if code == 0x1c {
            KeyboardKey::Enter
        } else if code == 0x01 {
            KeyboardKey::Escape
        } else if code == 0x39 {
            KeyboardKey::Space
        } else if code == 0x0f {
            KeyboardKey::Tab
        } else if code == 0x3a {
            KeyboardKey::CapsLock
        } else if code == 0x46 {
            KeyboardKey::ScrollLock
        } else if code == 0x2a {
            KeyboardKey::LeftShift
        } else if code == 0x36 {
            KeyboardKey::RightShift
        } else if code == 0x1d {
            KeyboardKey::LeftControl
        } else if code == 0x52 {
            KeyboardKey::Numpad0
        } else if code == 0x4f {
            KeyboardKey::Numpad1
        } else if code == 0x50 {
            KeyboardKey::Numpad2
        } else if code == 0x51 {
            KeyboardKey::Numpad3
        } else if code == 0x4b {
            KeyboardKey::Numpad4
        } else if code == 0x4c {
            KeyboardKey::Numpad5
        } else if code == 0x4d {
            KeyboardKey::Numpad6
        } else if code == 0x47 {
            KeyboardKey::Numpad7
        } else if code == 0x48 {
            KeyboardKey::Numpad8
        } else if code == 0x49 {
            KeyboardKey::Numpad9
        } else if code == 0x53 {
            KeyboardKey::NumpadDecimal
        } else if code == 0x37 {
            KeyboardKey::NumpadMultiply
        } else if code == 0x4a {
            KeyboardKey::NumpadSubtract
        } else if code == 0x4e {
            KeyboardKey::NumpadAdd
        } else {
            KeyboardKey::LeftAlt
        },
        WindowsKeyMapping::Scan { code, extended: true } => if code == 0x50 {
            KeyboardKey::ArrowDown
        } else if code == 0x4b {
            KeyboardKey::ArrowLeft
        } else if code == 0x4d {
            KeyboardKey::ArrowRight
        } else if code == 0x48 {
            KeyboardKey::ArrowUp
        } else if code == 0x53 {
            KeyboardKey::Delete
        } else if code == 0x4f {
            KeyboardKey::End
        } else if code == 0x47 {
            KeyboardKey::Home
        } else if code == 0x52 {
            KeyboardKey::Insert
        } else if code == 0x5d {
            KeyboardKey::ContextMenu
        } else if code == 0x51 {
            KeyboardKey::PageDown
        } else if code == 0x49 {
            KeyboardKey::PageUp
        } else if code == 0x45 {
            KeyboardKey::NumLock
        } else if code == 0x1d {
            KeyboardKey::RightControl
        } else if code == 0x35 {
            KeyboardKey::NumpadDivide
        } else if code == 0x1c {
            KeyboardKey::NumpadEnter
        } else if code == 0x38 {
            KeyboardKey::RightAlt
        } else if code == 0x5b {
            KeyboardKey::LeftSuper
        } else {
            KeyboardKey::RightSuper
        },
        WindowsKeyMapping::Virtual { code } => if code == 0x7c {
            KeyboardKey::F13
        } else if code == 0x7d {
            KeyboardKey::F14
        } else if code == 0x7e {
            KeyboardKey::F15
        } else {
            KeyboardKey::Pause
        },
    }
}

proof fn lemma_named(key: KeyboardKey)
    ensures
        named_key(key_mapping(key)) == key,
{
}

proof fn lemma_same_mapping(first: KeyboardKey, second: KeyboardKey)
    requires
        key_mapping(first) == key_mapping(second),
    ensures
        first == second,
{
    lemma_named(first);
    lemma_named(second);
}

/// The keys of the rows of a keyboard, from left to right.
pub open spec fn digit_row() -> Seq<KeyboardKey> {
    seq![
        KeyboardKey::Digit1,
        KeyboardKey::Digit2,
        KeyboardKey::Digit3,
        KeyboardKey::Digit4,
        KeyboardKey::Digit5,
        KeyboardKey::Digit6,
        KeyboardKey::Digit7,
        KeyboardKey::Digit8,
        KeyboardKey::Digit9,
        KeyboardKey::Digit0,
        KeyboardKey::Minus,
        KeyboardKey::Equal,
        KeyboardKey::Backspace,
    ]
}

/// The keys of the row under the digits.
pub open spec fn upper_row() -> Seq<KeyboardKey> {
    seq![
        KeyboardKey::Tab,
        KeyboardKey::Q,
        KeyboardKey::W,
        KeyboardKey::E,
        KeyboardKey::R,
        KeyboardKey::T,
        KeyboardKey::Y,
        KeyboardKey::U,
        KeyboardKey::I,
        KeyboardKey::O,
        KeyboardKey::P,
        KeyboardKey::LeftBracket,
        KeyboardKey::RightBracket,
        KeyboardKey::Enter,
    ]
}

/// The keys of the row on which the hands rest.
pub open spec fn home_row() -> Seq<KeyboardKey> {
    seq![
        KeyboardKey::LeftControl,
        KeyboardKey::A,
        KeyboardKey::S,
        KeyboardKey::D,
        KeyboardKey::F,
        KeyboardKey::G,
        KeyboardKey::H,
        KeyboardKey::J,
        KeyboardKey::K,
        KeyboardKey::L,
        KeyboardKey::Semicolon,
        KeyboardKey::Apostrophe,
        KeyboardKey::Backquote,
    ]
}

/// The keys of the row over the space bar.
pub open spec fn lower_row() -> Seq<KeyboardKey> {
    seq![
        KeyboardKey::LeftShift,
        KeyboardKey::Backslash,
        KeyboardKey::Z,
        KeyboardKey::X,
        KeyboardKey::C,
        KeyboardKey::V,
        KeyboardKey::B,
        KeyboardKey::N,
        KeyboardKey::M,
        KeyboardKey::Comma,
        KeyboardKey::Period,
        KeyboardKey::Slash,
        KeyboardKey::RightShift,
        KeyboardKey::NumpadMultiply,
        KeyboardKey::LeftAlt,
        KeyboardKey::Space,
        KeyboardKey::CapsLock,
        KeyboardKey::F1,
        KeyboardKey::F2,
        KeyboardKey::F3,
        KeyboardKey::F4,
        KeyboardKey::F5,
        KeyboardKey::F6,
        KeyboardKey::F7,
        KeyboardKey::F8,
        KeyboardKey::F9,
        KeyboardKey::F10,
    ]
}

/// The keys of the number pad, in the order in which they are wired.
pub open spec fn number_pad() -> Seq<KeyboardKey> {
    seq![
        KeyboardKey::Numpad7,
        KeyboardKey::Numpad8,
        KeyboardKey::Numpad9,
        KeyboardKey::NumpadSubtract,
        KeyboardKey::Numpad4,
        KeyboardKey::Numpad5,
        KeyboardKey::Numpad6,
        KeyboardKey::NumpadAdd,
        KeyboardKey::Numpad1,
        KeyboardKey::Numpad2,
        KeyboardKey::Numpad3,
        KeyboardKey::Numpad0,
        KeyboardKey::NumpadDecimal,
    ]
}

/// Keys that were added to the keyboard later, each with the older key whose code it shares.
pub open spec fn doubled_keys() -> Seq<(KeyboardKey, KeyboardKey)> {
    seq![
        (KeyboardKey::Home, KeyboardKey::Numpad7),
        (KeyboardKey::ArrowUp, KeyboardKey::Numpad8),
        (KeyboardKey::PageUp, KeyboardKey::Numpad9),
        (KeyboardKey::ArrowLeft, KeyboardKey::Numpad4),
        (KeyboardKey::ArrowRight, KeyboardKey::Numpad6),
        (KeyboardKey::End, KeyboardKey::Numpad1),
        (KeyboardKey::ArrowDown, KeyboardKey::Numpad2),
        (KeyboardKey::PageDown, KeyboardKey::Numpad3),
        (KeyboardKey::Insert, KeyboardKey::Numpad0),
        (KeyboardKey::Delete, KeyboardKey::NumpadDecimal),
        (KeyboardKey::NumpadEnter, KeyboardKey::Enter),
        (KeyboardKey::NumpadDivide, KeyboardKey::Slash),
        (KeyboardKey::RightControl, KeyboardKey::LeftControl),
        (KeyboardKey::RightAlt, KeyboardKey::LeftAlt),
    ]
}

/// The event names a key by this scan code, with these flags beside the direction.
pub open spec fn scans(input: KeyInput, code: int, extended: bool, pressed: bool) -> bool {
    &&& input.virtual_key == 0
    &&& input.scan_code == code
    &&& input.flags == 8 + (if extended {
        1int
    } else {
        0
    }) + (if pressed {
        0int
    } else {
        2
    })
}

/// The event names a key by this virtual key.
pub open spec fn names_virtual(input: KeyInput, code: int, pressed: bool) -> bool {
    &&& input.virtual_key == code
    &&& input.scan_code == 0
    &&& input.flags == (if pressed {
        0int
    } else {
        2
    })
}

/// The keys of a keyboard are wired in order. The digits and what follows them up to the space bar,
/// the lock and the first ten function keys have consecutive codes from two on; behind the locks
/// come the keys of the number pad; a key that was added later has the code of an older key and the
/// extended prefix.
pub proof fn law_scan_codes_follow_the_keyboard(index: int, pressed: bool)
    ensures
        scans(key_input(KeyboardKey::Escape, pressed), 0x01, false, pressed),
        0 <= index < digit_row().len() ==> scans(
            key_input(digit_row()[index], pressed),
            0x02 + index,
            false,
            pressed,
        ),
        0 <= index < upper_row().len() ==> scans(
            key_input(upper_row()[index], pressed),
            0x0f + index,
            false,
            pressed,
        ),
        0 <= index < home_row().len() ==> scans(
            key_input(home_row()[index], pressed),
            0x1d + index,
            false,
            pressed,
        ),
        0 <= index < lower_row().len() ==> scans(
            key_input(lower_row()[index], pressed),
            0x2a + index,
            false,
            pressed,
        ),
        scans(key_input(KeyboardKey::NumLock, pressed), 0x45, true, pressed),
        scans(key_input(KeyboardKey::ScrollLock, pressed), 0x46, false, pressed),
        0 <= index < number_pad().len() ==> scans(
            key_input(number_pad()[index], pressed),
            0x47 + index,
            false,
            pressed,
        ),
        scans(key_input(KeyboardKey::F11, pressed), 0x57, false, pressed),
        scans(key_input(KeyboardKey::F12, pressed), 0x58, false, pressed),
        scans(key_input(KeyboardKey::LeftSuper, pressed), 0x5b, true, pressed),
        scans(key_input(KeyboardKey::RightSuper, pressed), 0x5c, true, pressed),
        scans(key_input(KeyboardKey::ContextMenu, pressed), 0x5d, true, pressed),
        0 <= index < doubled_keys().len() ==> scans(
            key_input(doubled_keys()[index].0, pressed),
            key_input(doubled_keys()[index].1, pressed).scan_code as int,
            true,
            pressed,
        ),
        names_virtual(key_input(KeyboardKey::Pause, pressed), 0x13, pressed),
        names_virtual(key_input(KeyboardKey::F13, pressed), 0x7c, pressed),
        names_virtual(key_input(KeyboardKey::F14, pressed), 0x7d, pressed),
        names_virtual(key_input(KeyboardKey::F15, pressed), 0x7e, pressed),
{
}

} // verus!
