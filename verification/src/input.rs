//! Input: how keys, buttons and axes of a client are passed on.

use vstd::prelude::*;

verus! {

/// A floating point number, by its bits. It is passed on as it is; where it
/// has to be scaled, the caller does that.
#[derive(Debug, Clone, Copy, PartialEq, Eq, Structural)]
pub struct Real(pub u64);

/// A number that is to be multiplied.
#[derive(Debug, Clone, Copy, PartialEq, Eq, Structural)]
pub struct Scaled {
    pub value: Real,
    pub factor: u32,
}

/// A number that is to be divided.
#[derive(Debug, Clone, Copy, PartialEq, Eq, Structural)]
pub struct Divided {
    pub value: Real,
    pub divisor: u32,
}

#[derive(Debug, Clone, Copy, PartialEq, Eq, Structural)]
pub enum KeyState {
    Pressed,
    Released,
    Repeat,
}

#[derive(Debug, Clone, Copy, PartialEq, Eq, Structural)]
pub enum ButtonState {
    Pressed,
    Released,
}

/// A button of a pointer.
#[derive(Debug, Clone, Copy, PartialEq, Eq, Structural)]
pub enum Button {
    Unknown,
    Left,
    Right,
    Middle,
    Forward,
    Back,
}

#[derive(Debug, Clone, Copy, PartialEq, Eq, Structural)]
pub enum ScrollType {
    Unknown,
    Continuous,
    Discrete,
}

/// A key, by its place on the keyboard.
#[derive(Debug, Clone, Copy, PartialEq, Eq, Structural)]
pub enum Key {
    Escape,
    Digit1,
    Digit2,
    Digit3,
    Digit4,
    Digit5,
    Digit6,
    Digit7,
    Digit8,
    Digit9,
    Digit0,
    Minus,
    Equal,
    Backspace,
    Tab,
    Q,
    W,
    E,
    R,
    T,
    Y,
    U,
    I,
    O,
    P,
    BracketLeft,
    BracketRight,
    Enter,
    ControlLeft,
    A,
    S,
    D,
    F,
    G,
    H,
    J,
    K,
    L,
    Semicolon,
    Quote,
    Backquote,
    ShiftLeft,
    Backslash,
    Z,
    X,
    C,
    V,
    B,
    N,
    M,
    Comma,
    Period,
    Slash,
    ShiftRight,
    NumpadMultiply,
    AltLeft,
    Space,
    CapsLock,
    F1,
    F2,
    F3,
    F4,
    F5,
    F6,
    F7,
    F8,
    F9,
    F10,
    NumLock,
    ScrollLock,
    Numpad7,
    Numpad8,
    Numpad9,
    NumpadSubtract,
    Numpad4,
    Numpad5,
    Numpad6,
    NumpadAdd,
    Numpad1,
    Numpad2,
    Numpad3,
    Numpad0,
    NumpadDecimal,
    Lang5,
    IntlBackslash,
    F11,
    F12,
    IntlRo,
    Katakana,
    Hiragana,
    Convert,
    KanaMode,
    NonConvert,
    NumpadEnter,
    ControlRight,
    NumpadDivide,
    PrintScreen,
    AltRight,
    Home,
    ArrowUp,
    PageUp,
    ArrowLeft,
    ArrowRight,
    End,
    ArrowDown,
    PageDown,
    Insert,
    Delete,
    NumpadEqual,
    Pause,
    NumpadComma,
    IntlYen,
    MetaLeft,
    MetaRight,
    ContextMenu,
    Help,
    NumpadParenLeft,
    NumpadParenRight,
    NumpadBackspace,
    Fn,
    FnLock,
    Lang1,
    Lang2,
    Lang3,
    Lang4,
    NumpadClear,
    NumpadClearEntry,
    NumpadHash,
    NumpadMemoryAdd,
    NumpadMemoryClear,
    NumpadMemoryRecall,
    NumpadMemoryStore,
    NumpadMemorySubtract,
    Unknown,
}

#[derive(Debug, Clone, Copy, PartialEq, Eq, Structural)]
pub enum GamepadAxis {
    Unknown,
    LeftX,
    LeftY,
    RightX,
    RightY,
    LeftTrigger,
    RightTrigger,
}

#[derive(Debug, Clone, Copy, PartialEq, Eq, Structural)]
pub enum GamepadButton {
    DpadLeft,
    DpadRight,
    DpadUp,
    DpadDown,
    South,
    East,
    North,
    West,
    C,
    Z,
    ShoulderLeft,
    ShoulderRight,
    JoystickLeft,
    JoystickRight,
    Start,
    Select,
    Logo,
    Share,
    TriggerLeft,
    TriggerRight,
    Unknown,
}

/// The shape of a cursor, as an application asks for it.
#[derive(Debug, Clone, Copy, PartialEq, Eq, Structural)]
pub enum CursorIcon {
    Default,
    ContextMenu,
    Help,
    Pointer,
    Progress,
    Wait,
    Cell,
    Crosshair,
    Text,
    VerticalText,
    Alias,
    Copy,
    Move,
    NoDrop,
    NotAllowed,
    Grab,
    Grabbing,
    EResize,
    NResize,
    NeResize,
    NwResize,
    SResize,
    SeResize,
    SwResize,
    WResize,
    EwResize,
    NsResize,
    NeswResize,
    NwseResize,
    ColResize,
    RowResize,
    AllScroll,
    ZoomIn,
    ZoomOut,
    /// Any other shape.
    Other,
}

/// The shape of a cursor, as a client is told.
#[derive(Debug, Clone, Copy, PartialEq, Eq, Structural)]
pub enum ClientCursorIcon {
    /// There is no cursor.
    Hidden,
    Default,
    ContextMenu,
    Help,
    Pointer,
    Progress,
    Wait,
    Cell,
    Crosshair,
    Text,
    VerticalText,
    Alias,
    Copy,
    Move,
    NoDrop,
    NotAllowed,
    Grab,
    Grabbing,
    EResize,
    NResize,
    NeResize,
    NwResize,
    SResize,
    SeResize,
    SwResize,
    WResize,
    EwResize,
    NsResize,
    NeswResize,
    NwseResize,
    ColResize,
    RowResize,
    AllScroll,
    ZoomIn,
    ZoomOut,
}

/// The evdev code of a key, where it has one.
pub open spec fn key_code(key: Key) -> Option<u32> {
    match key {
        Key::Escape => Some(1u32),
        Key::Digit1 => Some(2u32),
        Key::Digit2 => Some(3u32),
        Key::Digit3 => Some(4u32),
        Key::Digit4 => Some(5u32),
        Key::Digit5 => Some(6u32),
        Key::Digit6 => Some(7u32),
        Key::Digit7 => Some(8u32),
        Key::Digit8 => Some(9u32),
        Key::Digit9 => Some(10u32),
        Key::Digit0 => Some(11u32),
        Key::Minus => Some(12u32),
        Key::Equal => Some(13u32),
        Key::Backspace => Some(14u32),
        Key::Tab => Some(15u32),
        Key::Q => Some(16u32),
        Key::W => Some(17u32),
        Key::E => Some(18u32),
        Key::R => Some(19u32),
        Key::T => Some(20u32),
        Key::Y => Some(21u32),
        Key::U => Some(22u32),
        Key::I => Some(23u32),
        Key::O => Some(24u32),
        Key::P => Some(25u32),
        Key::BracketLeft => Some(26u32),
        Key::BracketRight => Some(27u32),
        Key::Enter => Some(28u32),
        Key::ControlLeft => Some(29u32),
        Key::A => Some(30u32),
        Key::S => Some(31u32),
        Key::D => Some(32u32),
        Key::F => Some(33u32),
        Key::G => Some(34u32),
        Key::H => Some(35u32),
        Key::J => Some(36u32),
        Key::K => Some(37u32),
        Key::L => Some(38u32),
        Key::Semicolon => Some(39u32),
        Key::Quote => Some(40u32),
        Key::Backquote => Some(41u32),
        Key::ShiftLeft => Some(42u32),
        Key::Backslash => Some(43u32),
        Key::Z => Some(44u32),
        Key::X => Some(45u32),
        Key::C => Some(46u32),
        Key::V => Some(47u32),
        Key::B => Some(48u32),
        Key::N => Some(49u32),
        Key::M => Some(50u32),
        Key::Comma => Some(51u32),
        Key::Period => Some(52u32),
        Key::Slash => Some(53u32),
        Key::ShiftRight => Some(54u32),
        Key::NumpadMultiply => Some(55u32),
        Key::AltLeft => Some(56u32),
        Key::Space => Some(57u32),
        Key::CapsLock => Some(58u32),
        Key::F1 => Some(59u32),
        Key::F2 => Some(60u32),
        Key::F3 => Some(61u32),
        Key::F4 => Some(62u32),
        Key::F5 => Some(63u32),
        Key::F6 => Some(64u32),
        Key::F7 => Some(65u32),
        Key::F8 => Some(66u32),
        Key::F9 => Some(67u32),
        Key::F10 => Some(68u32),
        Key::NumLock => Some(69u32),
        Key::ScrollLock => Some(70u32),
        Key::Numpad7 => Some(71u32),
        Key::Numpad8 => Some(72u32),
        Key::Numpad9 => Some(73u32),
        Key::NumpadSubtract => Some(74u32),
        Key::Numpad4 => Some(75u32),
        Key::Numpad5 => Some(76u32),
        Key::Numpad6 => Some(77u32),
        Key::NumpadAdd => Some(78u32),
        Key::Numpad1 => Some(79u32),
        Key::Numpad2 => Some(80u32),
        Key::Numpad3 => Some(81u32),
        Key::Numpad0 => Some(82u32),
        Key::NumpadDecimal => Some(83u32),
        Key::Lang5 => Some(85u32),
        Key::IntlBackslash => Some(86u32),
        Key::F11 => Some(87u32),
        Key::F12 => Some(88u32),
        Key::IntlRo => Some(89u32),
        Key::Katakana => Some(90u32),
        Key::Hiragana => Some(91u32),
        Key::Convert => Some(92u32),
        Key::KanaMode => Some(93u32),
        Key::NonConvert => Some(94u32),
        Key::NumpadEnter => Some(96u32),
        Key::ControlRight => Some(97u32),
        Key::NumpadDivide => Some(98u32),
        Key::PrintScreen => Some(99u32),
        Key::AltRight => Some(100u32),
        Key::Home => Some(102u32),
        Key::ArrowUp => Some(103u32),
        Key::PageUp => Some(104u32),
        Key::ArrowLeft => Some(105u32),
        Key::ArrowRight => Some(106u32),
        Key::End => Some(107u32),
        Key::ArrowDown => Some(108u32),
        Key::PageDown => Some(109u32),
        Key::Insert => Some(110u32),
        Key::Delete => Some(111u32),
        Key::NumpadEqual => Some(117u32),
        Key::Pause => Some(119u32),
        Key::NumpadComma => Some(121u32),
        Key::IntlYen => Some(124u32),
        Key::MetaLeft => Some(125u32),
        Key::MetaRight => Some(126u32),
        Key::ContextMenu => Some(127u32),
        Key::Help => Some(138u32),
        Key::NumpadParenLeft => Some(179u32),
        Key::NumpadParenRight => Some(180u32),
        Key::NumpadBackspace => Some(14u32),
        _ => None,
    }
}

/// Translates a key to its evdev code. The numeric keypad's backspace has
/// none, and becomes the ordinary one.
pub fn key_to_evdev(key: Key) -> (code: Option<u32>)
    ensures
        code == key_code(key),
{
    match key {
        Key::Escape => Some(1),
        Key::Digit1 => Some(2),
        Key::Digit2 => Some(3),
        Key::Digit3 => Some(4),
        Key::Digit4 => Some(5),
        Key::Digit5 => Some(6),
        Key::Digit6 => Some(7),
        Key::Digit7 => Some(8),
        Key::Digit8 => Some(9),
        Key::Digit9 => Some(10),
        Key::Digit0 => Some(11),
        Key::Minus => Some(12),
        Key::Equal => Some(13),
        Key::Backspace => Some(14),
        Key::Tab => Some(15),
        Key::Q => Some(16),
        Key::W => Some(17),
        Key::E => Some(18),
        Key::R => Some(19),
        Key::T => Some(20),
        Key::Y => Some(21),
        Key::U => Some(22),
        Key::I => Some(23),
        Key::O => Some(24),
        Key::P => Some(25),
        Key::BracketLeft => Some(26),
        Key::BracketRight => Some(27),
        Key::Enter => Some(28),
        Key::ControlLeft => Some(29),
        Key::A => Some(30),
        Key::S => Some(31),
        Key::D => Some(32),
        Key::F => Some(33),
        Key::G => Some(34),
        Key::H => Some(35),
        Key::J => Some(36),
        Key::K => Some(37),
        Key::L => Some(38),
        Key::Semicolon => Some(39),
        Key::Quote => Some(40),
        Key::Backquote => Some(41),
        Key::ShiftLeft => Some(42),
        Key::Backslash => Some(43),
        Key::Z => Some(44),
        Key::X => Some(45),
        Key::C => Some(46),
        Key::V => Some(47),
        Key::B => Some(48),
        Key::N => Some(49),
        Key::M => Some(50),
        Key::Comma => Some(51),
        Key::Period => Some(52),
        Key::Slash => Some(53),
        Key::ShiftRight => Some(54),
        Key::NumpadMultiply => Some(55),
        Key::AltLeft => Some(56),
        Key::Space => Some(57),
        Key::CapsLock => Some(58),
        Key::F1 => Some(59),
        Key::F2 => Some(60),
        Key::F3 => Some(61),
        Key::F4 => Some(62),
        Key::F5 => Some(63),
        Key::F6 => Some(64),
        Key::F7 => Some(65),
        Key::F8 => Some(66),
        Key::F9 => Some(67),
        Key::F10 => Some(68),
        Key::NumLock => Some(69),
        Key::ScrollLock => Some(70),
        Key::Numpad7 => Some(71),
        Key::Numpad8 => Some(72),
        Key::Numpad9 => Some(73),
        Key::NumpadSubtract => Some(74),
        Key::Numpad4 => Some(75),
        Key::Numpad5 => Some(76),
        Key::Numpad6 => Some(77),
        Key::NumpadAdd => Some(78),
        Key::Numpad1 => Some(79),
        Key::Numpad2 => Some(80),
        Key::Numpad3 => Some(81),
        Key::Numpad0 => Some(82),
        Key::NumpadDecimal => Some(83),
        Key::Lang5 => Some(85),
        Key::IntlBackslash => Some(86),
        Key::F11 => Some(87),
        Key::F12 => Some(88),
        Key::IntlRo => Some(89),
        Key::Katakana => Some(90),
        Key::Hiragana => Some(91),
        Key::Convert => Some(92),
        Key::KanaMode => Some(93),
        Key::NonConvert => Some(94),
        Key::NumpadEnter => Some(96),
        Key::ControlRight => Some(97),
        Key::NumpadDivide => Some(98),
        Key::PrintScreen => Some(99),
        Key::AltRight => Some(100),
        Key::Home => Some(102),
        Key::ArrowUp => Some(103),
        Key::PageUp => Some(104),
        Key::ArrowLeft => Some(105),
        Key::ArrowRight => Some(106),
        Key::End => Some(107),
        Key::ArrowDown => Some(108),
        Key::PageDown => Some(109),
        Key::Insert => Some(110),
        Key::Delete => Some(111),
        Key::NumpadEqual => Some(117),
        Key::Pause => Some(119),
        Key::NumpadComma => Some(121),
        Key::IntlYen => Some(124),
        Key::MetaLeft => Some(125),
        Key::MetaRight => Some(126),
        Key::ContextMenu => Some(127),
        Key::Help => Some(138),
        Key::NumpadParenLeft => Some(179),
        Key::NumpadParenRight => Some(180),
        Key::NumpadBackspace => Some(14),
        _ => None,
    }
}

/// The evdev code of an axis, and whether it is a trigger.
pub open spec fn axis_code(axis: GamepadAxis) -> Option<(u32, bool)> {
    match axis {
        GamepadAxis::LeftX => Some((0x00u32, false)),
        GamepadAxis::LeftY => Some((0x01u32, false)),
        GamepadAxis::RightX => Some((0x03u32, false)),
        GamepadAxis::RightY => Some((0x04u32, false)),
        GamepadAxis::LeftTrigger => Some((0x02u32, true)),
        GamepadAxis::RightTrigger => Some((0x05u32, true)),
        GamepadAxis::Unknown => None,
    }
}

pub fn axis_to_evdev(axis: GamepadAxis) -> (code: Option<(u32, bool)>)
    ensures
        code == axis_code(axis),
{
    match axis {
        GamepadAxis::LeftX => Some((0x00, false)),
        GamepadAxis::LeftY => Some((0x01, false)),
        GamepadAxis::RightX => Some((0x03, false)),
        GamepadAxis::RightY => Some((0x04, false)),
        GamepadAxis::LeftTrigger => Some((0x02, true)),
        GamepadAxis::RightTrigger => Some((0x05, true)),
        GamepadAxis::Unknown => None,
    }
}

/// The evdev code of a gamepad button, where it has one.
pub open spec fn gamepad_code(button: GamepadButton) -> Option<u32> {
    match button {
        GamepadButton::DpadLeft => Some(0x222u32),
        GamepadButton::DpadRight => Some(0x223u32),
        GamepadButton::DpadUp => Some(0x220u32),
        GamepadButton::DpadDown => Some(0x221u32),
        GamepadButton::South => Some(0x130u32),
        GamepadButton::East => Some(0x131u32),
        GamepadButton::North => Some(0x133u32),
        GamepadButton::West => Some(0x134u32),
        GamepadButton::C => Some(0x132u32),
        GamepadButton::Z => Some(0x135u32),
        GamepadButton::ShoulderLeft => Some(0x136u32),
        GamepadButton::ShoulderRight => Some(0x137u32),
        GamepadButton::JoystickLeft => Some(0x13du32),
        GamepadButton::JoystickRight => Some(0x13eu32),
        GamepadButton::Start => Some(0x13bu32),
        GamepadButton::Select => Some(0x13au32),
        GamepadButton::Logo => Some(0x13cu32),
        GamepadButton::Share => None,
        GamepadButton::TriggerLeft => Some(0x138u32),
        GamepadButton::TriggerRight => Some(0x139u32),
        GamepadButton::Unknown => None,
    }
}

pub fn gamepad_button_to_evdev(button: GamepadButton) -> (code: Option<u32>)
    ensures
        code == gamepad_code(button),
{
    match button {
        GamepadButton::DpadLeft => Some(0x222),
        GamepadButton::DpadRight => Some(0x223),
        GamepadButton::DpadUp => Some(0x220),
        GamepadButton::DpadDown => Some(0x221),
        GamepadButton::South => Some(0x130),
        GamepadButton::East => Some(0x131),
        GamepadButton::North => Some(0x133),
        GamepadButton::West => Some(0x134),
        GamepadButton::C => Some(0x132),
        GamepadButton::Z => Some(0x135),
        GamepadButton::ShoulderLeft => Some(0x136),
        GamepadButton::ShoulderRight => Some(0x137),
        GamepadButton::JoystickLeft => Some(0x13d),
        GamepadButton::JoystickRight => Some(0x13e),
        GamepadButton::Start => Some(0x13b),
        GamepadButton::Select => Some(0x13a),
        GamepadButton::Logo => Some(0x13c),
        GamepadButton::Share => None,
        GamepadButton::TriggerLeft => Some(0x138),
        GamepadButton::TriggerRight => Some(0x139),
        GamepadButton::Unknown => None,
    }
}

/// The evdev code of a pointer button.
pub open spec fn button_code(button: Button) -> Option<u32> {
    match button {
        Button::Left => Some(0x110u32),
        Button::Right => Some(0x111u32),
        Button::Middle => Some(0x112u32),
        Button::Forward => Some(0x115u32),
        Button::Back => Some(0x116u32),
        Button::Unknown => None,
    }
}

pub fn button_to_evdev(button: Button) -> (code: Option<u32>)
    ensures
        code == button_code(button),
{
    match button {
        Button::Left => Some(0x110),
        Button::Right => Some(0x111),
        Button::Middle => Some(0x112),
        Button::Forward => Some(0x115),
        Button::Back => Some(0x116),
        Button::Unknown => None,
    }
}

/// The shape that a client is told. Shapes that it does not know become the
/// default one.
pub open spec fn client_icon(icon: CursorIcon) -> ClientCursorIcon {
    match icon {
        CursorIcon::ContextMenu => ClientCursorIcon::ContextMenu,
        CursorIcon::Help => ClientCursorIcon::Help,
        CursorIcon::Pointer => ClientCursorIcon::Pointer,
        CursorIcon::Progress => ClientCursorIcon::Progress,
        CursorIcon::Wait => ClientCursorIcon::Wait,
        CursorIcon::Cell => ClientCursorIcon::Cell,
        CursorIcon::Crosshair => ClientCursorIcon::Crosshair,
        CursorIcon::Text => ClientCursorIcon::Text,
        CursorIcon::VerticalText => ClientCursorIcon::VerticalText,
        CursorIcon::Alias => ClientCursorIcon::Alias,
        CursorIcon::Copy => ClientCursorIcon::Copy,
        CursorIcon::Move => ClientCursorIcon::Move,
        CursorIcon::NoDrop => ClientCursorIcon::NoDrop,
        CursorIcon::NotAllowed => ClientCursorIcon::NotAllowed,
        CursorIcon::Grab => ClientCursorIcon::Grab,
        CursorIcon::Grabbing => ClientCursorIcon::Grabbing,
        CursorIcon::EResize => ClientCursorIcon::EResize,
        CursorIcon::NResize => ClientCursorIcon::NResize,
        CursorIcon::NeResize => ClientCursorIcon::NeResize,
        CursorIcon::NwResize => ClientCursorIcon::NwResize,
        CursorIcon::SResize => ClientCursorIcon::SResize,
        CursorIcon::SeResize => ClientCursorIcon::SeResize,
        CursorIcon::SwResize => ClientCursorIcon::SwResize,
        CursorIcon::WResize => ClientCursorIcon::WResize,
        CursorIcon::EwResize => ClientCursorIcon::EwResize,
        CursorIcon::NsResize => ClientCursorIcon::NsResize,
        CursorIcon::NeswResize => ClientCursorIcon::NeswResize,
        CursorIcon::NwseResize => ClientCursorIcon::NwseResize,
        CursorIcon::ColResize => ClientCursorIcon::ColResize,
        CursorIcon::RowResize => ClientCursorIcon::RowResize,
        CursorIcon::AllScroll => ClientCursorIcon::AllScroll,
        CursorIcon::ZoomIn => ClientCursorIcon::ZoomIn,
        CursorIcon::ZoomOut => ClientCursorIcon::ZoomOut,
        _ => ClientCursorIcon::Default,
    }
}

pub fn cursor_icon_to_proto(icon: CursorIcon) -> (shape: ClientCursorIcon)
    ensures
        shape == client_icon(icon),
{
    match icon {
        CursorIcon::ContextMenu => ClientCursorIcon::ContextMenu,
        CursorIcon::Help => ClientCursorIcon::Help,
        CursorIcon::Pointer => ClientCursorIcon::Pointer,
        CursorIcon::Progress => ClientCursorIcon::Progress,
        CursorIcon::Wait => ClientCursorIcon::Wait,
        CursorIcon::Cell => ClientCursorIcon::Cell,
        CursorIcon::Crosshair => ClientCursorIcon::Crosshair,
        CursorIcon::Text => ClientCursorIcon::Text,
        CursorIcon::VerticalText => ClientCursorIcon::VerticalText,
        CursorIcon::Alias => ClientCursorIcon::Alias,
        CursorIcon::Copy => ClientCursorIcon::Copy,
        CursorIcon::Move => ClientCursorIcon::Move,
        CursorIcon::NoDrop => ClientCursorIcon::NoDrop,
        CursorIcon::NotAllowed => ClientCursorIcon::NotAllowed,
        CursorIcon::Grab => ClientCursorIcon::Grab,
        CursorIcon::Grabbing => ClientCursorIcon::Grabbing,
        CursorIcon::EResize => ClientCursorIcon::EResize,
        CursorIcon::NResize => ClientCursorIcon::NResize,
        CursorIcon::NeResize => ClientCursorIcon::NeResize,
        CursorIcon::NwResize => ClientCursorIcon::NwResize,
        CursorIcon::SResize => ClientCursorIcon::SResize,
        CursorIcon::SeResize => ClientCursorIcon::SeResize,
        CursorIcon::SwResize => ClientCursorIcon::SwResize,
        CursorIcon::WResize => ClientCursorIcon::WResize,
        CursorIcon::EwResize => ClientCursorIcon::EwResize,
        CursorIcon::NsResize => ClientCursorIcon::NsResize,
        CursorIcon::NeswResize => ClientCursorIcon::NeswResize,
        CursorIcon::NwseResize => ClientCursorIcon::NwseResize,
        CursorIcon::ColResize => ClientCursorIcon::ColResize,
        CursorIcon::RowResize => ClientCursorIcon::RowResize,
        CursorIcon::AllScroll => ClientCursorIcon::AllScroll,
        CursorIcon::ZoomIn => ClientCursorIcon::ZoomIn,
        CursorIcon::ZoomOut => ClientCursorIcon::ZoomOut,
        _ => ClientCursorIcon::Default,
    }
}

/// No two keys but the two backspaces share a code.
pub proof fn key_codes_are_distinct(a: Key, b: Key)
    requires
        key_code(a) is Some,
        key_code(a) == key_code(b),
        key_code(a) != Some(14u32),
    ensures
        a == b,
{
}

/// No two buttons of a gamepad share a code.
pub proof fn gamepad_codes_are_distinct(a: GamepadButton, b: GamepadButton)
    requires
        gamepad_code(a) is Some,
        gamepad_code(a) == gamepad_code(b),
    ensures
        a == b,
{
}

/// Keys have consecutive codes, from the first on.
pub open spec fn in_order(keys: Seq<Key>, first: u32) -> bool {
    forall|i: int| 0 <= i < keys.len() ==> key_code(#[trigger] keys[i]) == Some((first + i) as u32)
}

/// Keys have codes in the order in which they lie on a keyboard, row by row.
pub proof fn keys_are_coded_in_rows()
    ensures
        in_order(
            seq![
                Key::Escape,
                Key::Digit1,
                Key::Digit2,
                Key::Digit3,
                Key::Digit4,
                Key::Digit5,
                Key::Digit6,
                Key::Digit7,
                Key::Digit8,
                Key::Digit9,
                Key::Digit0,
                Key::Minus,
                Key::Equal,
                Key::Backspace,
            ],
            1,
        ),
        in_order(
            seq![
                Key::Tab,
                Key::Q,
                Key::W,
                Key::E,
                Key::R,
                Key::T,
                Key::Y,
                Key::U,
                Key::I,
                Key::O,
                Key::P,
                Key::BracketLeft,
                Key::BracketRight,
                Key::Enter,
            ],
            15,
        ),
        in_order(
            seq![
                Key::ControlLeft,
                Key::A,
                Key::S,
                Key::D,
                Key::F,
                Key::G,
                Key::H,
                Key::J,
                Key::K,
                Key::L,
                Key::Semicolon,
                Key::Quote,
                Key::Backquote,
            ],
            29,
        ),
        in_order(
            seq![
                Key::ShiftLeft,
                Key::Backslash,
                Key::Z,
                Key::X,
                Key::C,
                Key::V,
                Key::B,
                Key::N,
                Key::M,
                Key::Comma,
                Key::Period,
                Key::Slash,
                Key::ShiftRight,
            ],
            42,
        ),
        in_order(
            seq![
                Key::NumpadMultiply,
                Key::AltLeft,
                Key::Space,
                Key::CapsLock,
            ],
            55,
        ),
        in_order(
            seq![
                Key::F1,
                Key::F2,
                Key::F3,
                Key::F4,
                Key::F5,
                Key::F6,
                Key::F7,
                Key::F8,
                Key::F9,
                Key::F10,
            ],
            59,
        ),
        in_order(
            seq![
                Key::NumLock,
                Key::ScrollLock,
                Key::Numpad7,
                Key::Numpad8,
                Key::Numpad9,
                Key::NumpadSubtract,
                Key::Numpad4,
                Key::Numpad5,
                Key::Numpad6,
                Key::NumpadAdd,
                Key::Numpad1,
                Key::Numpad2,
                Key::Numpad3,
                Key::Numpad0,
                Key::NumpadDecimal,
            ],
            69,
        ),
        in_order(
            seq![
                Key::Lang5,
                Key::IntlBackslash,
                Key::F11,
                Key::F12,
                Key::IntlRo,
                Key::Katakana,
                Key::Hiragana,
                Key::Convert,
                Key::KanaMode,
                Key::NonConvert,
            ],
            85,
        ),
        in_order(
            seq![
                Key::NumpadEnter,
                Key::ControlRight,
                Key::NumpadDivide,
                Key::PrintScreen,
                Key::AltRight,
            ],
            96,
        ),
        in_order(
            seq![
                Key::Home,
                Key::ArrowUp,
                Key::PageUp,
                Key::ArrowLeft,
                Key::ArrowRight,
                Key::End,
                Key::ArrowDown,
                Key::PageDown,
                Key::Insert,
                Key::Delete,
            ],
            102,
        ),
        in_order(
            seq![
                Key::IntlYen,
                Key::MetaLeft,
                Key::MetaRight,
                Key::ContextMenu,
            ],
            124,
        ),
        in_order(
            seq![
                Key::NumpadParenLeft,
                Key::NumpadParenRight,
            ],
            179,
        ),
        in_order(
            seq![
                Key::NumpadEqual,
            ],
            117,
        ),
        in_order(
            seq![
                Key::Pause,
            ],
            119,
        ),
        in_order(
            seq![
                Key::NumpadComma,
            ],
            121,
        ),
        in_order(
            seq![
                Key::Help,
            ],
            138,
        ),
        key_code(Key::NumpadBackspace) == key_code(Key::Backspace),
{
}

/// The buttons of a gamepad have consecutive codes, and so have the four
/// directions of its pad.
pub proof fn gamepad_buttons_are_coded_in_order(i: int)
    ensures
        0 <= i < 15 ==> gamepad_code(
            seq![
                GamepadButton::South,
                GamepadButton::East,
                GamepadButton::C,
                GamepadButton::North,
                GamepadButton::West,
                GamepadButton::Z,
                GamepadButton::ShoulderLeft,
                GamepadButton::ShoulderRight,
                GamepadButton::TriggerLeft,
                GamepadButton::TriggerRight,
                GamepadButton::Select,
                GamepadButton::Start,
                GamepadButton::Logo,
                GamepadButton::JoystickLeft,
                GamepadButton::JoystickRight,
            ][i],
        ) == Some((0x130 + i) as u32),
        0 <= i < 4 ==> gamepad_code(
            seq![
                GamepadButton::DpadUp,
                GamepadButton::DpadDown,
                GamepadButton::DpadLeft,
                GamepadButton::DpadRight,
            ][i],
        ) == Some((0x220 + i) as u32),
        gamepad_code(GamepadButton::Share) is None,
        gamepad_code(GamepadButton::Unknown) is None,
{
}

/// Axes are coded stick by stick: across, down, and the trigger on that side.
/// Only triggers are triggers.
pub proof fn axes_are_coded_by_stick(axis: GamepadAxis, i: int)
    ensures
        0 <= i < 6 ==> (axis_code(
            seq![
                GamepadAxis::LeftX,
                GamepadAxis::LeftY,
                GamepadAxis::LeftTrigger,
                GamepadAxis::RightX,
                GamepadAxis::RightY,
                GamepadAxis::RightTrigger,
            ][i],
        ) matches Some((code, _)) && code == i),
        axis_code(axis) is None <==> axis is Unknown,
        axis_code(axis) matches Some((_, trigger)) ==> (trigger <==> axis is LeftTrigger || axis
            is RightTrigger),
{
}

/// The buttons of a pointer have the codes of a mouse: left, right and middle
/// first, then those that go forward and back.
pub proof fn pointer_buttons_are_coded(button: Button)
    ensures
        button_code(button) == Some(0x110u32) <==> button is Left,
        button_code(button) == Some(0x111u32) <==> button is Right,
        button_code(button) == Some(0x112u32) <==> button is Middle,
        button_code(button) == Some(0x115u32) <==> button is Forward,
        button_code(button) == Some(0x116u32) <==> button is Back,
        button_code(button) is None <==> button is Unknown,
{
}

/// A client shows the cursor that the application asks for, if it knows it: each
/// shape stands for one cursor, and the default for those that it does not know.
pub proof fn cursors_keep_their_shape(icon: CursorIcon)
    ensures
        client_icon(icon) is ContextMenu <==> icon is ContextMenu,
        client_icon(icon) is Help <==> icon is Help,
        client_icon(icon) is Pointer <==> icon is Pointer,
        client_icon(icon) is Progress <==> icon is Progress,
        client_icon(icon) is Wait <==> icon is Wait,
        client_icon(icon) is Cell <==> icon is Cell,
        client_icon(icon) is Crosshair <==> icon is Crosshair,
        client_icon(icon) is Text <==> icon is Text,
        client_icon(icon) is VerticalText <==> icon is VerticalText,
        client_icon(icon) is Alias <==> icon is Alias,
        client_icon(icon) is Copy <==> icon is Copy,
        client_icon(icon) is Move <==> icon is Move,
        client_icon(icon) is NoDrop <==> icon is NoDrop,
        client_icon(icon) is NotAllowed <==> icon is NotAllowed,
        client_icon(icon) is Grab <==> icon is Grab,
        client_icon(icon) is Grabbing <==> icon is Grabbing,
        client_icon(icon) is EResize <==> icon is EResize,
        client_icon(icon) is NResize <==> icon is NResize,
        client_icon(icon) is NeResize <==> icon is NeResize,
        client_icon(icon) is NwResize <==> icon is NwResize,
        client_icon(icon) is SResize <==> icon is SResize,
        client_icon(icon) is SeResize <==> icon is SeResize,
        client_icon(icon) is SwResize <==> icon is SwResize,
        client_icon(icon) is WResize <==> icon is WResize,
        client_icon(icon) is EwResize <==> icon is EwResize,
        client_icon(icon) is NsResize <==> icon is NsResize,
        client_icon(icon) is NeswResize <==> icon is NeswResize,
        client_icon(icon) is NwseResize <==> icon is NwseResize,
        client_icon(icon) is ColResize <==> icon is ColResize,
        client_icon(icon) is RowResize <==> icon is RowResize,
        client_icon(icon) is AllScroll <==> icon is AllScroll,
        client_icon(icon) is ZoomIn <==> icon is ZoomIn,
        client_icon(icon) is ZoomOut <==> icon is ZoomOut,
        client_icon(icon) is Default <==> icon is Default || icon is Other,
        !(client_icon(icon) is Hidden),
{
}

} // verus!
