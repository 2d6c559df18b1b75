//! Physical keys and input events as the keyboard grabber reports them.
//!
//! The variants follow the grabber's own enumeration of keys; `Unknown` carries a raw code.

use vstd::prelude::*;

verus! {

/// A physical key on the keyboard.
#[derive(Clone, Copy, Debug, PartialEq, Eq, Hash, Structural)]
pub enum Key {
    Alt,
    AltGr,
    Backspace,
    CapsLock,
    ControlLeft,
    ControlRight,
    Delete,
    DownArrow,
    End,
    Escape,
    F1,
    F10,
    F11,
    F12,
    F2,
    F3,
    F4,
    F5,
    F6,
    F7,
    F8,
    F9,
    Home,
    LeftArrow,
    MetaLeft,
    MetaRight,
    PageDown,
    PageUp,
    Return,
    RightArrow,
    ShiftLeft,
    ShiftRight,
    Space,
    Tab,
    UpArrow,
    PrintScreen,
    ScrollLock,
    Pause,
    NumLock,
    BackQuote,
    Num1,
    Num2,
    Num3,
    Num4,
    Num5,
    Num6,
    Num7,
    Num8,
    Num9,
    Num0,
    Minus,
    Equal,
    KeyQ,
    KeyW,
    KeyE,
    KeyR,
    KeyT,
    KeyY,
    KeyU,
    KeyI,
    KeyO,
    KeyP,
    LeftBracket,
    RightBracket,
    KeyA,
    KeyS,
    KeyD,
    KeyF,
    KeyG,
    KeyH,
    KeyJ,
    KeyK,
    KeyL,
    SemiColon,
    Quote,
    BackSlash,
    IntlBackslash,
    KeyZ,
    KeyX,
    KeyC,
    KeyV,
    KeyB,
    KeyN,
    KeyM,
    Comma,
    Dot,
    Slash,
    Insert,
    KpReturn,
    KpMinus,
    KpPlus,
    KpMultiply,
    KpDivide,
    Kp0,
    Kp1,
    Kp2,
    Kp3,
    Kp4,
    Kp5,
    Kp6,
    Kp7,
    Kp8,
    Kp9,
    KpDelete,
    Function,
    /// A key without a name of its own, identified by its raw code.
    Unknown(u32),
}

/// A mouse button.
#[derive(Clone, Copy, Debug, PartialEq, Eq, Hash, Structural)]
pub enum Button {
    Left,
    Right,
    Middle,
    Unknown(u8),
}

/// The kind of an input event.
///
/// Pointer movement is carried without its coordinates: nothing in the key handling reads them,
/// and the daemon keeps the grabbed event itself to hand back.
#[derive(Clone, Copy, Debug, PartialEq, Eq, Structural)]
pub enum EventType {
    KeyPress(Key),
    KeyRelease(Key),
    ButtonPress(Button),
    ButtonRelease(Button),
    MouseMove,
    Wheel { delta_x: i64, delta_y: i64 },
}

/// One input event.
#[derive(Clone, Debug, PartialEq)]
pub struct Event {
    /// What happened.
    pub event_type: EventType,
    /// The text the key would produce, where the grabber knows it.
    pub name: Option<String>,
}

impl Event {
    /// An event of the given kind, with no text attached.
    pub fn from_event_type(event_type: EventType) -> (e: Event)
        ensures
            e.event_type == event_type,
            e.name is None,
    {
        Event { event_type, name: None }
    }
}

/// The fixed activation key for all keybindings.
pub const ACTIVATION_KEY: Key = Key::CapsLock;

/// The factor that moves a named key's rank above every raw key code.
pub const KEY_SHIFT: u64 = 0x1_0000_0000;

/// The position (from 1) of a named key in the grabber's enumeration; 0 for `Unknown`.
pub open spec fn key_rank(k: Key) -> u64 {
    match k {
        Key::Alt => 1,
        Key::AltGr => 2,
        Key::Backspace => 3,
        Key::CapsLock => 4,
        Key::ControlLeft => 5,
        Key::ControlRight => 6,
        Key::Delete => 7,
        Key::DownArrow => 8,
        Key::End => 9,
        Key::Escape => 10,
        Key::F1 => 11,
        Key::F10 => 12,
        Key::F11 => 13,
        Key::F12 => 14,
        Key::F2 => 15,
        Key::F3 => 16,
        Key::F4 => 17,
        Key::F5 => 18,
        Key::F6 => 19,
        Key::F7 => 20,
        Key::F8 => 21,
        Key::F9 => 22,
        Key::Home => 23,
        Key::LeftArrow => 24,
        Key::MetaLeft => 25,
        Key::MetaRight => 26,
        Key::PageDown => 27,
        Key::PageUp => 28,
        Key::Return => 29,
        Key::RightArrow => 30,
        Key::ShiftLeft => 31,
        Key::ShiftRight => 32,
        Key::Space => 33,
        Key::Tab => 34,
        Key::UpArrow => 35,
        Key::PrintScreen => 36,
        Key::ScrollLock => 37,
        Key::Pause => 38,
        Key::NumLock => 39,
        Key::BackQuote => 40,
        Key::Num1 => 41,
        Key::Num2 => 42,
        Key::Num3 => 43,
        Key::Num4 => 44,
        Key::Num5 => 45,
        Key::Num6 => 46,
        Key::Num7 => 47,
        Key::Num8 => 48,
        Key::Num9 => 49,
        Key::Num0 => 50,
        Key::Minus => 51,
        Key::Equal => 52,
        Key::KeyQ => 53,
        Key::KeyW => 54,
        Key::KeyE => 55,
        Key::KeyR => 56,
        Key::KeyT => 57,
        Key::KeyY => 58,
        Key::KeyU => 59,
        Key::KeyI => 60,
        Key::KeyO => 61,
        Key::KeyP => 62,
        Key::LeftBracket => 63,
        Key::RightBracket => 64,
        Key::KeyA => 65,
        Key::KeyS => 66,
        Key::KeyD => 67,
        Key::KeyF => 68,
        Key::KeyG => 69,
        Key::KeyH => 70,
        Key::KeyJ => 71,
        Key::KeyK => 72,
        Key::KeyL => 73,
        Key::SemiColon => 74,
        Key::Quote => 75,
        Key::BackSlash => 76,
        Key::IntlBackslash => 77,
        Key::KeyZ => 78,
        Key::KeyX => 79,
        Key::KeyC => 80,
        Key::KeyV => 81,
        Key::KeyB => 82,
        Key::KeyN => 83,
        Key::KeyM => 84,
        Key::Comma => 85,
        Key::Dot => 86,
        Key::Slash => 87,
        Key::Insert => 88,
        Key::KpReturn => 89,
        Key::KpMinus => 90,
        Key::KpPlus => 91,
        Key::KpMultiply => 92,
        Key::KpDivide => 93,
        Key::Kp0 => 94,
        Key::Kp1 => 95,
        Key::Kp2 => 96,
        Key::Kp3 => 97,
        Key::Kp4 => 98,
        Key::Kp5 => 99,
        Key::Kp6 => 100,
        Key::Kp7 => 101,
        Key::Kp8 => 102,
        Key::Kp9 => 103,
        Key::KpDelete => 104,
        Key::Function => 105,
        Key::Unknown(_) => 0,
    }
}

/// The named key at a given position of the enumeration.
pub open spec fn key_from_rank(n: u64) -> Key {
    match n {
        1 => Key::Alt,
        2 => Key::AltGr,
        3 => Key::Backspace,
        4 => Key::CapsLock,
        5 => Key::ControlLeft,
        6 => Key::ControlRight,
        7 => Key::Delete,
        8 => Key::DownArrow,
        9 => Key::End,
        10 => Key::Escape,
        11 => Key::F1,
        12 => Key::F10,
        13 => Key::F11,
        14 => Key::F12,
        15 => Key::F2,
        16 => Key::F3,
        17 => Key::F4,
        18 => Key::F5,
        19 => Key::F6,
        20 => Key::F7,
        21 => Key::F8,
        22 => Key::F9,
        23 => Key::Home,
        24 => Key::LeftArrow,
        25 => Key::MetaLeft,
        26 => Key::MetaRight,
        27 => Key::PageDown,
        28 => Key::PageUp,
        29 => Key::Return,
        30 => Key::RightArrow,
        31 => Key::ShiftLeft,
        32 => Key::ShiftRight,
        33 => Key::Space,
        34 => Key::Tab,
        35 => Key::UpArrow,
        36 => Key::PrintScreen,
        37 => Key::ScrollLock,
        38 => Key::Pause,
        39 => Key::NumLock,
        40 => Key::BackQuote,
        41 => Key::Num1,
        42 => Key::Num2,
        43 => Key::Num3,
        44 => Key::Num4,
        45 => Key::Num5,
        46 => Key::Num6,
        47 => Key::Num7,
        48 => Key::Num8,
        49 => Key::Num9,
        50 => Key::Num0,
        51 => Key::Minus,
        52 => Key::Equal,
        53 => Key::KeyQ,
        54 => Key::KeyW,
        55 => Key::KeyE,
        56 => Key::KeyR,
        57 => Key::KeyT,
        58 => Key::KeyY,
        59 => Key::KeyU,
        60 => Key::KeyI,
        61 => Key::KeyO,
        62 => Key::KeyP,
        63 => Key::LeftBracket,
        64 => Key::RightBracket,
        65 => Key::KeyA,
        66 => Key::KeyS,
        67 => Key::KeyD,
        68 => Key::KeyF,
        69 => Key::KeyG,
        70 => Key::KeyH,
        71 => Key::KeyJ,
        72 => Key::KeyK,
        73 => Key::KeyL,
        74 => Key::SemiColon,
        75 => Key::Quote,
        76 => Key::BackSlash,
        77 => Key::IntlBackslash,
        78 => Key::KeyZ,
        79 => Key::KeyX,
        80 => Key::KeyC,
        81 => Key::KeyV,
        82 => Key::KeyB,
        83 => Key::KeyN,
        84 => Key::KeyM,
        85 => Key::Comma,
        86 => Key::Dot,
        87 => Key::Slash,
        88 => Key::Insert,
        89 => Key::KpReturn,
        90 => Key::KpMinus,
        91 => Key::KpPlus,
        92 => Key::KpMultiply,
        93 => Key::KpDivide,
        94 => Key::Kp0,
        95 => Key::Kp1,
        96 => Key::Kp2,
        97 => Key::Kp3,
        98 => Key::Kp4,
        99 => Key::Kp5,
        100 => Key::Kp6,
        101 => Key::Kp7,
        102 => Key::Kp8,
        103 => Key::Kp9,
        104 => Key::KpDelete,
        105 => Key::Function,
        _ => Key::Unknown(0),
    }
}

/// The sort value of a key: named keys by rank, above all raw codes, which sort by value.
pub open spec fn spec_val_key(k: Key) -> u64 {
    match k {
        Key::Unknown(bits) => bits as u64,
        _ => (key_rank(k) * KEY_SHIFT) as u64,
    }
}

/// Every named key is recovered from its rank.
pub proof fn lemma_key_rank_inverse(k: Key)
    ensures
        !(k is Unknown) ==> 1 <= key_rank(k) <= 105 && key_from_rank(key_rank(k)) == k,
{
}

/// Distinct keys have distinct sort values.
pub proof fn lemma_val_key_injective(a: Key, b: Key)
    ensures
        spec_val_key(a) == spec_val_key(b) <==> a == b,
{
    lemma_key_rank_inverse(a);
    lemma_key_rank_inverse(b);
    if !(a is Unknown) && !(b is Unknown) && spec_val_key(a) == spec_val_key(b) {
        assert(key_rank(a) * KEY_SHIFT == key_rank(b) * KEY_SHIFT);
        assert(key_rank(a) == key_rank(b)) by (nonlinear_arith)
            requires
                key_rank(a) * KEY_SHIFT == key_rank(b) * KEY_SHIFT,
                KEY_SHIFT > 0,
        ;
    }
}

/// The sort value of a key.
pub fn val_key(k1: &Key) -> (v: u64)
    ensures
        v == spec_val_key(*k1),
{
    match k1 {
        Key::Alt => 1 * KEY_SHIFT,
        Key::AltGr => 2 * KEY_SHIFT,
        Key::Backspace => 3 * KEY_SHIFT,
        Key::CapsLock => 4 * KEY_SHIFT,
        Key::ControlLeft => 5 * KEY_SHIFT,
        Key::ControlRight => 6 * KEY_SHIFT,
        Key::Delete => 7 * KEY_SHIFT,
        Key::DownArrow => 8 * KEY_SHIFT,
        Key::End => 9 * KEY_SHIFT,
        Key::Escape => 10 * KEY_SHIFT,
        Key::F1 => 11 * KEY_SHIFT,
        Key::F10 => 12 * KEY_SHIFT,
        Key::F11 => 13 * KEY_SHIFT,
        Key::F12 => 14 * KEY_SHIFT,
        Key::F2 => 15 * KEY_SHIFT,
        Key::F3 => 16 * KEY_SHIFT,
        Key::F4 => 17 * KEY_SHIFT,
        Key::F5 => 18 * KEY_SHIFT,
        Key::F6 => 19 * KEY_SHIFT,
        Key::F7 => 20 * KEY_SHIFT,
        Key::F8 => 21 * KEY_SHIFT,
        Key::F9 => 22 * KEY_SHIFT,
        Key::Home => 23 * KEY_SHIFT,
        Key::LeftArrow => 24 * KEY_SHIFT,
        Key::MetaLeft => 25 * KEY_SHIFT,
        Key::MetaRight => 26 * KEY_SHIFT,
        Key::PageDown => 27 * KEY_SHIFT,
        Key::PageUp => 28 * KEY_SHIFT,
        Key::Return => 29 * KEY_SHIFT,
        Key::RightArrow => 30 * KEY_SHIFT,
        Key::ShiftLeft => 31 * KEY_SHIFT,
        Key::ShiftRight => 32 * KEY_SHIFT,
        Key::Space => 33 * KEY_SHIFT,
        Key::Tab => 34 * KEY_SHIFT,
        Key::UpArrow => 35 * KEY_SHIFT,
        Key::PrintScreen => 36 * KEY_SHIFT,
        Key::ScrollLock => 37 * KEY_SHIFT,
        Key::Pause => 38 * KEY_SHIFT,
        Key::NumLock => 39 * KEY_SHIFT,
        Key::BackQuote => 40 * KEY_SHIFT,
        Key::Num1 => 41 * KEY_SHIFT,
        Key::Num2 => 42 * KEY_SHIFT,
        Key::Num3 => 43 * KEY_SHIFT,
        Key::Num4 => 44 * KEY_SHIFT,
        Key::Num5 => 45 * KEY_SHIFT,
        Key::Num6 => 46 * KEY_SHIFT,
        Key::Num7 => 47 * KEY_SHIFT,
        Key::Num8 => 48 * KEY_SHIFT,
        Key::Num9 => 49 * KEY_SHIFT,
        Key::Num0 => 50 * KEY_SHIFT,
        Key::Minus => 51 * KEY_SHIFT,
        Key::Equal => 52 * KEY_SHIFT,
        Key::KeyQ => 53 * KEY_SHIFT,
        Key::KeyW => 54 * KEY_SHIFT,
        Key::KeyE => 55 * KEY_SHIFT,
        Key::KeyR => 56 * KEY_SHIFT,
        Key::KeyT => 57 * KEY_SHIFT,
        Key::KeyY => 58 * KEY_SHIFT,
        Key::KeyU => 59 * KEY_SHIFT,
        Key::KeyI => 60 * KEY_SHIFT,
        Key::KeyO => 61 * KEY_SHIFT,
        Key::KeyP => 62 * KEY_SHIFT,
        Key::LeftBracket => 63 * KEY_SHIFT,
        Key::RightBracket => 64 * KEY_SHIFT,
        Key::KeyA => 65 * KEY_SHIFT,
        Key::KeyS => 66 * KEY_SHIFT,
        Key::KeyD => 67 * KEY_SHIFT,
        Key::KeyF => 68 * KEY_SHIFT,
        Key::KeyG => 69 * KEY_SHIFT,
        Key::KeyH => 70 * KEY_SHIFT,
        Key::KeyJ => 71 * KEY_SHIFT,
        Key::KeyK => 72 * KEY_SHIFT,
        Key::KeyL => 73 * KEY_SHIFT,
        Key::SemiColon => 74 * KEY_SHIFT,
        Key::Quote => 75 * KEY_SHIFT,
        Key::BackSlash => 76 * KEY_SHIFT,
        Key::IntlBackslash => 77 * KEY_SHIFT,
        Key::KeyZ => 78 * KEY_SHIFT,
        Key::KeyX => 79 * KEY_SHIFT,
        Key::KeyC => 80 * KEY_SHIFT,
        Key::KeyV => 81 * KEY_SHIFT,
        Key::KeyB => 82 * KEY_SHIFT,
        Key::KeyN => 83 * KEY_SHIFT,
        Key::KeyM => 84 * KEY_SHIFT,
        Key::Comma => 85 * KEY_SHIFT,
        Key::Dot => 86 * KEY_SHIFT,
        Key::Slash => 87 * KEY_SHIFT,
        Key::Insert => 88 * KEY_SHIFT,
        Key::KpReturn => 89 * KEY_SHIFT,
        Key::KpMinus => 90 * KEY_SHIFT,
        Key::KpPlus => 91 * KEY_SHIFT,
        Key::KpMultiply => 92 * KEY_SHIFT,
        Key::KpDivide => 93 * KEY_SHIFT,
        Key::Kp0 => 94 * KEY_SHIFT,
        Key::Kp1 => 95 * KEY_SHIFT,
        Key::Kp2 => 96 * KEY_SHIFT,
        Key::Kp3 => 97 * KEY_SHIFT,
        Key::Kp4 => 98 * KEY_SHIFT,
        Key::Kp5 => 99 * KEY_SHIFT,
        Key::Kp6 => 100 * KEY_SHIFT,
        Key::Kp7 => 101 * KEY_SHIFT,
        Key::Kp8 => 102 * KEY_SHIFT,
        Key::Kp9 => 103 * KEY_SHIFT,
        Key::KpDelete => 104 * KEY_SHIFT,
        Key::Function => 105 * KEY_SHIFT,
        Key::Unknown(bits_u32) => *bits_u32 as u64,
    }
}

} // verus!
