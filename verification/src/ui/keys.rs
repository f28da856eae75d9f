//! Window keys and the physical keys of the protocol.
use crate::protocol::keys::{
    digits, editing_keys, function_keys, held_keys, letters, number_pad_keys, outer_keys, signs,
};
use crate::protocol::KeyboardKey;
use vstd::prelude::*;

verus! {

/// The keys that a window reports.
#[derive(Clone, Copy, Debug, Eq, PartialEq, Structural)]
pub enum WindowKey {
    Key0,
    Key1,
    Key2,
    Key3,
    Key4,
    Key5,
    Key6,
    Key7,
    Key8,
    Key9,
    A,
    B,
    C,
    D,
    E,
    F,
    G,
    H,
    I,
    J,
    K,
    L,
    M,
    N,
    O,
    P,
    Q,
    R,
    S,
    T,
    U,
    V,
    W,
    X,
    Y,
    Z,
    F1,
    F2,
    F3,
    F4,
    F5,
    F6,
    F7,
    F8,
    F9,
    F10,
    F11,
    F12,
    F13,
    F14,
    F15,
    Down,
    Left,
    Right,
    Up,
    Apostrophe,
    Backquote,
    Backslash,
    Comma,
    Equal,
    LeftBracket,
    Minus,
    Period,
    RightBracket,
    Semicolon,
    Slash,
    Backspace,
    Delete,
    End,
    Enter,
    Escape,
    Home,
    Insert,
    Menu,
    PageDown,
    PageUp,
    Pause,
    Space,
    Tab,
    NumLock,
    CapsLock,
    ScrollLock,
    LeftShift,
    RightShift,
    LeftCtrl,
    RightCtrl,
    NumPad0,
    NumPad1,
    NumPad2,
    NumPad3,
    NumPad4,
    NumPad5,
    NumPad6,
    NumPad7,
    NumPad8,
    NumPad9,
    NumPadDot,
    NumPadSlash,
    NumPadAsterisk,
    NumPadMinus,
    NumPadPlus,
    NumPadEnter,
    LeftAlt,
    RightAlt,
    LeftSuper,
    RightSuper,
    Unknown,
    Count,
}

/// The physical key of a window key.
pub open spec fn physical(key: WindowKey) -> Option<KeyboardKey> {
    match key {
        WindowKey::Key0 => Some(KeyboardKey::Digit0),
        WindowKey::Key1 => Some(KeyboardKey::Digit1),
        WindowKey::Key2 => Some(KeyboardKey::Digit2),
        WindowKey::Key3 => Some(KeyboardKey::Digit3),
        WindowKey::Key4 => Some(KeyboardKey::Digit4),
        WindowKey::Key5 => Some(KeyboardKey::Digit5),
        WindowKey::Key6 => Some(KeyboardKey::Digit6),
        WindowKey::Key7 => Some(KeyboardKey::Digit7),
        WindowKey::Key8 => Some(KeyboardKey::Digit8),
        WindowKey::Key9 => Some(KeyboardKey::Digit9),
        WindowKey::A => Some(KeyboardKey::A),
        WindowKey::B => Some(KeyboardKey::B),
        WindowKey::C => Some(KeyboardKey::C),
        WindowKey::D => Some(KeyboardKey::D),
        WindowKey::E => Some(KeyboardKey::E),
        WindowKey::F => Some(KeyboardKey::F),
        WindowKey::G => Some(KeyboardKey::G),
        WindowKey::H => Some(KeyboardKey::H),
        WindowKey::I => Some(KeyboardKey::I),
        WindowKey::J => Some(KeyboardKey::J),
        WindowKey::K => Some(KeyboardKey::K),
        WindowKey::L => Some(KeyboardKey::L),
        WindowKey::M => Some(KeyboardKey::M),
        WindowKey::N => Some(KeyboardKey::N),
        WindowKey::O => Some(KeyboardKey::O),
        WindowKey::P => Some(KeyboardKey::P),
        WindowKey::Q => Some(KeyboardKey::Q),
        WindowKey::R => Some(KeyboardKey::R),
        WindowKey::S => Some(KeyboardKey::S),
        WindowKey::T => Some(KeyboardKey::T),
        WindowKey::U => Some(KeyboardKey::U),
        WindowKey::V => Some(KeyboardKey::V),
        WindowKey::W => Some(KeyboardKey::W),
        WindowKey::X => Some(KeyboardKey::X),
        WindowKey::Y => Some(KeyboardKey::Y),
        WindowKey::Z => Some(KeyboardKey::Z),
        WindowKey::F1 => Some(KeyboardKey::F1),
        WindowKey::F2 => Some(KeyboardKey::F2),
        WindowKey::F3 => Some(KeyboardKey::F3),
        WindowKey::F4 => Some(KeyboardKey::F4),
        WindowKey::F5 => Some(KeyboardKey::F5),
        WindowKey::F6 => Some(KeyboardKey::F6),
        WindowKey::F7 => Some(KeyboardKey::F7),
        WindowKey::F8 => Some(KeyboardKey::F8),
        WindowKey::F9 => Some(KeyboardKey::F9),
        WindowKey::F10 => Some(KeyboardKey::F10),
        WindowKey::F11 => Some(KeyboardKey::F11),
        WindowKey::F12 => Some(KeyboardKey::F12),
        WindowKey::F13 => Some(KeyboardKey::F13),
        WindowKey::F14 => Some(KeyboardKey::F14),
        WindowKey::F15 => Some(KeyboardKey::F15),
        WindowKey::Down => Some(KeyboardKey::ArrowDown),
        WindowKey::Left => Some(KeyboardKey::ArrowLeft),
        WindowKey::Right => Some(KeyboardKey::ArrowRight),
        WindowKey::Up => Some(KeyboardKey::ArrowUp),
        WindowKey::Apostrophe => Some(KeyboardKey::Apostrophe),
        WindowKey::Backquote => Some(KeyboardKey::Backquote),
        WindowKey::Backslash => Some(KeyboardKey::Backslash),
        WindowKey::Comma => Some(KeyboardKey::Comma),
        WindowKey::Equal => Some(KeyboardKey::Equal),
        WindowKey::LeftBracket => Some(KeyboardKey::LeftBracket),
        WindowKey::Minus => Some(KeyboardKey::Minus),
        WindowKey::Period => Some(KeyboardKey::Period),
        WindowKey::RightBracket => Some(KeyboardKey::RightBracket),
        WindowKey::Semicolon => Some(KeyboardKey::Semicolon),
        WindowKey::Slash => Some(KeyboardKey::Slash),
        WindowKey::Backspace => Some(KeyboardKey::Backspace),
        WindowKey::Delete => Some(KeyboardKey::Delete),
        WindowKey::End => Some(KeyboardKey::End),
        WindowKey::Enter => Some(KeyboardKey::Enter),
        WindowKey::Escape => Some(KeyboardKey::Escape),
        WindowKey::Home => Some(KeyboardKey::Home),
        WindowKey::Insert => Some(KeyboardKey::Insert),
        WindowKey::Menu => Some(KeyboardKey::ContextMenu),
        WindowKey::PageDown => Some(KeyboardKey::PageDown),
        WindowKey::PageUp => Some(KeyboardKey::PageUp),
        WindowKey::Pause => Some(KeyboardKey::Pause),
        WindowKey::Space => Some(KeyboardKey::Space),
        WindowKey::Tab => Some(KeyboardKey::Tab),
        WindowKey::NumLock => Some(KeyboardKey::NumLock),
        WindowKey::CapsLock => Some(KeyboardKey::CapsLock),
        WindowKey::ScrollLock => Some(KeyboardKey::ScrollLock),
        WindowKey::LeftShift => Some(KeyboardKey::LeftShift),
        WindowKey::RightShift => Some(KeyboardKey::RightShift),
        WindowKey::LeftCtrl => Some(KeyboardKey::LeftControl),
        WindowKey::RightCtrl => Some(KeyboardKey::RightControl),
        WindowKey::NumPad0 => Some(KeyboardKey::Numpad0),
        WindowKey::NumPad1 => Some(KeyboardKey::Numpad1),
        WindowKey::NumPad2 => Some(KeyboardKey::Numpad2),
        WindowKey::NumPad3 => Some(KeyboardKey::Numpad3),
        WindowKey::NumPad4 => Some(KeyboardKey::Numpad4),
        WindowKey::NumPad5 => Some(KeyboardKey::Numpad5),
        WindowKey::NumPad6 => Some(KeyboardKey::Numpad6),
        WindowKey::NumPad7 => Some(KeyboardKey::Numpad7),
        WindowKey::NumPad8 => Some(KeyboardKey::Numpad8),
        WindowKey::NumPad9 => Some(KeyboardKey::Numpad9),
        WindowKey::NumPadDot => Some(KeyboardKey::NumpadDecimal),
        WindowKey::NumPadSlash => Some(KeyboardKey::NumpadDivide),
        WindowKey::NumPadAsterisk => Some(KeyboardKey::NumpadMultiply),
        WindowKey::NumPadMinus => Some(KeyboardKey::NumpadSubtract),
        WindowKey::NumPadPlus => Some(KeyboardKey::NumpadAdd),
        WindowKey::NumPadEnter => Some(KeyboardKey::NumpadEnter),
        WindowKey::LeftAlt => Some(KeyboardKey::LeftAlt),
        WindowKey::RightAlt => Some(KeyboardKey::RightAlt),
        WindowKey::LeftSuper => Some(KeyboardKey::LeftSuper),
        WindowKey::RightSuper => Some(KeyboardKey::RightSuper),
        WindowKey::Unknown => None,
        WindowKey::Count => None,
    }
}

/// The window key of a physical key.
pub open spec fn reported(key: KeyboardKey) -> WindowKey {
    match key {
        KeyboardKey::Digit0 => WindowKey::Key0,
        KeyboardKey::Digit1 => WindowKey::Key1,
        KeyboardKey::Digit2 => WindowKey::Key2,
        KeyboardKey::Digit3 => WindowKey::Key3,
        KeyboardKey::Digit4 => WindowKey::Key4,
        KeyboardKey::Digit5 => WindowKey::Key5,
        KeyboardKey::Digit6 => WindowKey::Key6,
        KeyboardKey::Digit7 => WindowKey::Key7,
        KeyboardKey::Digit8 => WindowKey::Key8,
        KeyboardKey::Digit9 => WindowKey::Key9,
        KeyboardKey::A => WindowKey::A,
        KeyboardKey::B => WindowKey::B,
        KeyboardKey::C => WindowKey::C,
        KeyboardKey::D => WindowKey::D,
        KeyboardKey::E => WindowKey::E,
        KeyboardKey::F => WindowKey::F,
        KeyboardKey::G => WindowKey::G,
        KeyboardKey::H => WindowKey::H,
        KeyboardKey::I => WindowKey::I,
        KeyboardKey::J => WindowKey::J,
        KeyboardKey::K => WindowKey::K,
        KeyboardKey::L => WindowKey::L,
        KeyboardKey::M => WindowKey::M,
        KeyboardKey::N => WindowKey::N,
        KeyboardKey::O => WindowKey::O,
        KeyboardKey::P => WindowKey::P,
        KeyboardKey::Q => WindowKey::Q,
        KeyboardKey::R => WindowKey::R,
        KeyboardKey::S => WindowKey::S,
        KeyboardKey::T => WindowKey::T,
        KeyboardKey::U => WindowKey::U,
        KeyboardKey::V => WindowKey::V,
        KeyboardKey::W => WindowKey::W,
        KeyboardKey::X => WindowKey::X,
        KeyboardKey::Y => WindowKey::Y,
        KeyboardKey::Z => WindowKey::Z,
        KeyboardKey::F1 => WindowKey::F1,
        KeyboardKey::F2 => WindowKey::F2,
        KeyboardKey::F3 => WindowKey::F3,
        KeyboardKey::F4 => WindowKey::F4,
        KeyboardKey::F5 => WindowKey::F5,
        KeyboardKey::F6 => WindowKey::F6,
        KeyboardKey::F7 => WindowKey::F7,
        KeyboardKey::F8 => WindowKey::F8,
        KeyboardKey::F9 => WindowKey::F9,
        KeyboardKey::F10 => WindowKey::F10,
        KeyboardKey::F11 => WindowKey::F11,
        KeyboardKey::F12 => WindowKey::F12,
        KeyboardKey::F13 => WindowKey::F13,
        KeyboardKey::F14 => WindowKey::F14,
        KeyboardKey::F15 => WindowKey::F15,
        KeyboardKey::ArrowDown => WindowKey::Down,
        KeyboardKey::ArrowLeft => WindowKey::Left,
        KeyboardKey::ArrowRight => WindowKey::Right,
        KeyboardKey::ArrowUp => WindowKey::Up,
        KeyboardKey::Apostrophe => WindowKey::Apostrophe,
        KeyboardKey::Backquote => WindowKey::Backquote,
        KeyboardKey::Backslash => WindowKey::Backslash,
        KeyboardKey::Comma => WindowKey::Comma,
        KeyboardKey::Equal => WindowKey::Equal,
        KeyboardKey::LeftBracket => WindowKey::LeftBracket,
        KeyboardKey::Minus => WindowKey::Minus,
        KeyboardKey::Period => WindowKey::Period,
        KeyboardKey::RightBracket => WindowKey::RightBracket,
        KeyboardKey::Semicolon => WindowKey::Semicolon,
        KeyboardKey::Slash => WindowKey::Slash,
        KeyboardKey::Backspace => WindowKey::Backspace,
        KeyboardKey::Delete => WindowKey::Delete,
        KeyboardKey::End => WindowKey::End,
        KeyboardKey::Enter => WindowKey::Enter,
        KeyboardKey::Escape => WindowKey::Escape,
        KeyboardKey::Home => WindowKey::Home,
        KeyboardKey::Insert => WindowKey::Insert,
        KeyboardKey::ContextMenu => WindowKey::Menu,
        KeyboardKey::PageDown => WindowKey::PageDown,
        KeyboardKey::PageUp => WindowKey::PageUp,
        KeyboardKey::Pause => WindowKey::Pause,
        KeyboardKey::Space => WindowKey::Space,
        KeyboardKey::Tab => WindowKey::Tab,
        KeyboardKey::NumLock => WindowKey::NumLock,
        KeyboardKey::CapsLock => WindowKey::CapsLock,
        KeyboardKey::ScrollLock => WindowKey::ScrollLock,
        KeyboardKey::LeftShift => WindowKey::LeftShift,
        KeyboardKey::RightShift => WindowKey::RightShift,
        KeyboardKey::LeftControl => WindowKey::LeftCtrl,
        KeyboardKey::RightControl => WindowKey::RightCtrl,
        KeyboardKey::Numpad0 => WindowKey::NumPad0,
        KeyboardKey::Numpad1 => WindowKey::NumPad1,
        KeyboardKey::Numpad2 => WindowKey::NumPad2,
        KeyboardKey::Numpad3 => WindowKey::NumPad3,
        KeyboardKey::Numpad4 => WindowKey::NumPad4,
        KeyboardKey::Numpad5 => WindowKey::NumPad5,
        KeyboardKey::Numpad6 => WindowKey::NumPad6,
        KeyboardKey::Numpad7 => WindowKey::NumPad7,
        KeyboardKey::Numpad8 => WindowKey::NumPad8,
        KeyboardKey::Numpad9 => WindowKey::NumPad9,
        KeyboardKey::NumpadDecimal => WindowKey::NumPadDot,
        KeyboardKey::NumpadDivide => WindowKey::NumPadSlash,
        KeyboardKey::NumpadMultiply => WindowKey::NumPadAsterisk,
        KeyboardKey::NumpadSubtract => WindowKey::NumPadMinus,
        KeyboardKey::NumpadAdd => WindowKey::NumPadPlus,
        KeyboardKey::NumpadEnter => WindowKey::NumPadEnter,
        KeyboardKey::LeftAlt => WindowKey::LeftAlt,
        KeyboardKey::RightAlt => WindowKey::RightAlt,
        KeyboardKey::LeftSuper => WindowKey::LeftSuper,
        KeyboardKey::RightSuper => WindowKey::RightSuper,
    }
}

/// The physical key of a window key.
pub fn map_key(key: WindowKey) -> (result: Option<KeyboardKey>)
    ensures
        result == physical(key),
{
    Some(
        match key {
            WindowKey::Key0 => KeyboardKey::Digit0,
            WindowKey::Key1 => KeyboardKey::Digit1,
            WindowKey::Key2 => KeyboardKey::Digit2,
            WindowKey::Key3 => KeyboardKey::Digit3,
            WindowKey::Key4 => KeyboardKey::Digit4,
            WindowKey::Key5 => KeyboardKey::Digit5,
            WindowKey::Key6 => KeyboardKey::Digit6,
            WindowKey::Key7 => KeyboardKey::Digit7,
            WindowKey::Key8 => KeyboardKey::Digit8,
            WindowKey::Key9 => KeyboardKey::Digit9,
            WindowKey::A => KeyboardKey::A,
            WindowKey::B => KeyboardKey::B,
            WindowKey::C => KeyboardKey::C,
            WindowKey::D => KeyboardKey::D,
            WindowKey::E => KeyboardKey::E,
            WindowKey::F => KeyboardKey::F,
            WindowKey::G => KeyboardKey::G,
            WindowKey::H => KeyboardKey::H,
            WindowKey::I => KeyboardKey::I,
            WindowKey::J => KeyboardKey::J,
            WindowKey::K => KeyboardKey::K,
            WindowKey::L => KeyboardKey::L,
            WindowKey::M => KeyboardKey::M,
            WindowKey::N => KeyboardKey::N,
            WindowKey::O => KeyboardKey::O,
            WindowKey::P => KeyboardKey::P,
            WindowKey::Q => KeyboardKey::Q,
            WindowKey::R => KeyboardKey::R,
            WindowKey::S => KeyboardKey::S,
            WindowKey::T => KeyboardKey::T,
            WindowKey::U => KeyboardKey::U,
            WindowKey::V => KeyboardKey::V,
            WindowKey::W => KeyboardKey::W,
            WindowKey::X => KeyboardKey::X,
            WindowKey::Y => KeyboardKey::Y,
            WindowKey::Z => KeyboardKey::Z,
            WindowKey::F1 => KeyboardKey::F1,
            WindowKey::F2 => KeyboardKey::F2,
            WindowKey::F3 => KeyboardKey::F3,
            WindowKey::F4 => KeyboardKey::F4,
            WindowKey::F5 => KeyboardKey::F5,
            WindowKey::F6 => KeyboardKey::F6,
            WindowKey::F7 => KeyboardKey::F7,
            WindowKey::F8 => KeyboardKey::F8,
            WindowKey::F9 => KeyboardKey::F9,
            WindowKey::F10 => KeyboardKey::F10,
            WindowKey::F11 => KeyboardKey::F11,
            WindowKey::F12 => KeyboardKey::F12,
            WindowKey::F13 => KeyboardKey::F13,
            WindowKey::F14 => KeyboardKey::F14,
            WindowKey::F15 => KeyboardKey::F15,
            WindowKey::Down => KeyboardKey::ArrowDown,
            WindowKey::Left => KeyboardKey::ArrowLeft,
            WindowKey::Right => KeyboardKey::ArrowRight,
            WindowKey::Up => KeyboardKey::ArrowUp,
            WindowKey::Apostrophe => KeyboardKey::Apostrophe,
            WindowKey::Backquote => KeyboardKey::Backquote,
            WindowKey::Backslash => KeyboardKey::Backslash,
            WindowKey::Comma => KeyboardKey::Comma,
            WindowKey::Equal => KeyboardKey::Equal,
            WindowKey::LeftBracket => KeyboardKey::LeftBracket,
            WindowKey::Minus => KeyboardKey::Minus,
            WindowKey::Period => KeyboardKey::Period,
            WindowKey::RightBracket => KeyboardKey::RightBracket,
            WindowKey::Semicolon => KeyboardKey::Semicolon,
            WindowKey::Slash => KeyboardKey::Slash,
            WindowKey::Backspace => KeyboardKey::Backspace,
            WindowKey::Delete => KeyboardKey::Delete,
            WindowKey::End => KeyboardKey::End,
            WindowKey::Enter => KeyboardKey::Enter,
            WindowKey::Escape => KeyboardKey::Escape,
            WindowKey::Home => KeyboardKey::Home,
            WindowKey::Insert => KeyboardKey::Insert,
            WindowKey::Menu => KeyboardKey::ContextMenu,
            WindowKey::PageDown => KeyboardKey::PageDown,
            WindowKey::PageUp => KeyboardKey::PageUp,
            WindowKey::Pause => KeyboardKey::Pause,
            WindowKey::Space => KeyboardKey::Space,
            WindowKey::Tab => KeyboardKey::Tab,
            WindowKey::NumLock => KeyboardKey::NumLock,
            WindowKey::CapsLock => KeyboardKey::CapsLock,
            WindowKey::ScrollLock => KeyboardKey::ScrollLock,
            WindowKey::LeftShift => KeyboardKey::LeftShift,
            WindowKey::RightShift => KeyboardKey::RightShift,
            WindowKey::LeftCtrl => KeyboardKey::LeftControl,
            WindowKey::RightCtrl => KeyboardKey::RightControl,
            WindowKey::NumPad0 => KeyboardKey::Numpad0,
            WindowKey::NumPad1 => KeyboardKey::Numpad1,
            WindowKey::NumPad2 => KeyboardKey::Numpad2,
            WindowKey::NumPad3 => KeyboardKey::Numpad3,
            WindowKey::NumPad4 => KeyboardKey::Numpad4,
            WindowKey::NumPad5 => KeyboardKey::Numpad5,
            WindowKey::NumPad6 => KeyboardKey::Numpad6,
            WindowKey::NumPad7 => KeyboardKey::Numpad7,
            WindowKey::NumPad8 => KeyboardKey::Numpad8,
            WindowKey::NumPad9 => KeyboardKey::Numpad9,
            WindowKey::NumPadDot => KeyboardKey::NumpadDecimal,
            WindowKey::NumPadSlash => KeyboardKey::NumpadDivide,
            WindowKey::NumPadAsterisk => KeyboardKey::NumpadMultiply,
            WindowKey::NumPadMinus => KeyboardKey::NumpadSubtract,
            WindowKey::NumPadPlus => KeyboardKey::NumpadAdd,
            WindowKey::NumPadEnter => KeyboardKey::NumpadEnter,
            WindowKey::LeftAlt => KeyboardKey::LeftAlt,
            WindowKey::RightAlt => KeyboardKey::RightAlt,
            WindowKey::LeftSuper => KeyboardKey::LeftSuper,
            WindowKey::RightSuper => KeyboardKey::RightSuper,
            WindowKey::Unknown => { return None; },
            WindowKey::Count => { return None; },
        },
    )
}

/// Window keys and physical keys correspond one to one, but for the two window keys that stand
/// for nothing in particular.
pub proof fn law_keys_correspond(window_key: WindowKey, physical_key: KeyboardKey)
    ensures
        physical(window_key) is None <==> window_key == WindowKey::Unknown || window_key
            == WindowKey::Count,
        physical(window_key) matches Some(found) ==> reported(found) == window_key,
        physical(reported(physical_key)) == Some(physical_key),
{
}

/// The digits of a keyboard's main block, from zero on, as a window reports them.
pub open spec fn window_digits() -> Seq<WindowKey> {
    seq![
        WindowKey::Key0,
        WindowKey::Key1,
        WindowKey::Key2,
        WindowKey::Key3,
        WindowKey::Key4,
        WindowKey::Key5,
        WindowKey::Key6,
        WindowKey::Key7,
        WindowKey::Key8,
        WindowKey::Key9,
    ]
}

/// The letters, in the order of the alphabet, as a window reports them.
pub open spec fn window_letters() -> Seq<WindowKey> {
    seq![
        WindowKey::A,
        WindowKey::B,
        WindowKey::C,
        WindowKey::D,
        WindowKey::E,
        WindowKey::F,
        WindowKey::G,
        WindowKey::H,
        WindowKey::I,
        WindowKey::J,
        WindowKey::K,
        WindowKey::L,
        WindowKey::M,
        WindowKey::N,
        WindowKey::O,
        WindowKey::P,
        WindowKey::Q,
        WindowKey::R,
        WindowKey::S,
        WindowKey::T,
        WindowKey::U,
        WindowKey::V,
        WindowKey::W,
        WindowKey::X,
        WindowKey::Y,
        WindowKey::Z,
    ]
}

/// The function keys, as a window reports them.
pub open spec fn window_function_keys() -> Seq<WindowKey> {
    seq![
        WindowKey::F1,
        WindowKey::F2,
        WindowKey::F3,
        WindowKey::F4,
        WindowKey::F5,
        WindowKey::F6,
        WindowKey::F7,
        WindowKey::F8,
        WindowKey::F9,
        WindowKey::F10,
        WindowKey::F11,
        WindowKey::F12,
        WindowKey::F13,
        WindowKey::F14,
        WindowKey::F15,
    ]
}

/// The arrows and the signs, as a window reports them.
pub open spec fn window_signs() -> Seq<WindowKey> {
    seq![
        WindowKey::Down,
        WindowKey::Left,
        WindowKey::Right,
        WindowKey::Up,
        WindowKey::Apostrophe,
        WindowKey::Backquote,
        WindowKey::Backslash,
        WindowKey::Comma,
        WindowKey::Equal,
        WindowKey::LeftBracket,
        WindowKey::Minus,
        WindowKey::Period,
        WindowKey::RightBracket,
        WindowKey::Semicolon,
        WindowKey::Slash,
    ]
}

/// The keys that edit and the locks, as a window reports them.
pub open spec fn window_editing_keys() -> Seq<WindowKey> {
    seq![
        WindowKey::Backspace,
        WindowKey::Delete,
        WindowKey::End,
        WindowKey::Enter,
        WindowKey::Escape,
        WindowKey::Home,
        WindowKey::Insert,
        WindowKey::Menu,
        WindowKey::PageDown,
        WindowKey::PageUp,
        WindowKey::Pause,
        WindowKey::Space,
        WindowKey::Tab,
        WindowKey::NumLock,
        WindowKey::CapsLock,
        WindowKey::ScrollLock,
    ]
}

/// The keys that are held with another, left before right, as a window reports them.
pub open spec fn window_held_keys() -> Seq<WindowKey> {
    seq![
        WindowKey::LeftShift,
        WindowKey::RightShift,
        WindowKey::LeftCtrl,
        WindowKey::RightCtrl,
    ]
}

/// The number pad, its digits from zero on, as a window reports them.
pub open spec fn window_number_pad_keys() -> Seq<WindowKey> {
    seq![
        WindowKey::NumPad0,
        WindowKey::NumPad1,
        WindowKey::NumPad2,
        WindowKey::NumPad3,
        WindowKey::NumPad4,
        WindowKey::NumPad5,
        WindowKey::NumPad6,
        WindowKey::NumPad7,
        WindowKey::NumPad8,
        WindowKey::NumPad9,
        WindowKey::NumPadDot,
        WindowKey::NumPadSlash,
        WindowKey::NumPadAsterisk,
        WindowKey::NumPadMinus,
        WindowKey::NumPadPlus,
        WindowKey::NumPadEnter,
    ]
}

/// The keys beside the space bar, left before right, as a window reports them.
pub open spec fn window_outer_keys() -> Seq<WindowKey> {
    seq![
        WindowKey::LeftAlt,
        WindowKey::RightAlt,
        WindowKey::LeftSuper,
        WindowKey::RightSuper,
    ]
}

/// A key of the window is the key of the same place on the host's keyboard.
pub proof fn law_keys_keep_their_places(index: int)
    ensures
        0 <= index < window_digits().len() ==> physical(window_digits()[index]) == Some(
            digits()[index],
        ),
        0 <= index < window_letters().len() ==> physical(window_letters()[index]) == Some(
            letters()[index],
        ),
        0 <= index < window_function_keys().len() ==> physical(window_function_keys()[index]) == Some(
            function_keys()[index],
        ),
        0 <= index < window_signs().len() ==> physical(window_signs()[index]) == Some(
            signs()[index],
        ),
        0 <= index < window_editing_keys().len() ==> physical(window_editing_keys()[index]) == Some(
            editing_keys()[index],
        ),
        0 <= index < window_held_keys().len() ==> physical(window_held_keys()[index]) == Some(
            held_keys()[index],
        ),
        0 <= index < window_number_pad_keys().len() ==> physical(window_number_pad_keys()[index]) == Some(
            number_pad_keys()[index],
        ),
        0 <= index < window_outer_keys().len() ==> physical(window_outer_keys()[index]) == Some(
            outer_keys()[index],
        ),
        physical(WindowKey::Unknown) is None,
        physical(WindowKey::Count) is None,
{
}

} // verus!
