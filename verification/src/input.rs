//! Key bindings as written in the configuration: keys, modifiers, and their parsing.

use crate::modes::ScreenReaderMode;
use crate::text::{
    chars_of, eq_ignore_ascii_case, is_ascii_control, is_whitespace, matches_exactly,
    matches_ignore_case, parse_u8, parse_u8_chars, split, split_chars, string_of, trim, trimmed,
    char_is_whitespace, lemma_split_nonempty, find_char, find_char_index, sub_chars, ascii_lower,
};
use core::ops::{BitOr, BitOrAssign};
use vstd::prelude::*;
use vstd::std_specs::ops::BitOrSpecImpl;

verus! {

/// A key as named in a key binding.
#[derive(Clone, Copy, Debug, PartialEq, Eq, Hash, Structural)]
pub enum Key {
    Up,
    Down,
    Left,
    Right,
    Home,
    End,
    PageDown,
    PageUp,
    Backspace,
    Delete,
    Escape,
    F1,
    F2,
    F3,
    F4,
    F5,
    F6,
    F7,
    F8,
    F9,
    F10,
    F11,
    F12,
    Return,
    Space,
    Tab,
    PrintScreen,
    ScrollLock,
    Pause,
    NumLock,
    KpReturn,
    KpMinus,
    KpPlus,
    KpMultiply,
    KpDivide,
    Kp0,
    Kp1,
    Kp2,
    Kp3,
    Kp4,
    Kp5,
    Kp6,
    Kp7,
    Kp8,
    Kp9,
    KpDelete,
    Function,
    Insert,
    /// Any other key, by the character it produces.
    Other(char),
}

/// An error in reading a key or a key binding.
#[derive(Debug, Clone, PartialEq, Eq)]
pub enum KeyFromStrError {
    /// Empty key binding.
    EmptyString,
    /// No key was provided.
    NoKey,
    /// Empty key.
    EmptyKey,
    /// Invalid key.
    InvalidKey(String),
    /// Invalid repeat.
    InvalidRepeat(String),
    /// Invalid modifier.
    InvalidModifier(String),
    /// Invalid mode.
    InvalidMode(String),
}

/// A [`KeyFromStrError`] with its text as characters.
pub enum KeyErrorView {
    EmptyString,
    NoKey,
    EmptyKey,
    InvalidKey(Seq<char>),
    InvalidRepeat(Seq<char>),
    InvalidModifier(Seq<char>),
    InvalidMode(Seq<char>),
}

impl View for KeyFromStrError {
    type V = KeyErrorView;

    open spec fn view(&self) -> KeyErrorView {
        match self {
            KeyFromStrError::EmptyString => KeyErrorView::EmptyString,
            KeyFromStrError::NoKey => KeyErrorView::NoKey,
            KeyFromStrError::EmptyKey => KeyErrorView::EmptyKey,
            KeyFromStrError::InvalidKey(s) => KeyErrorView::InvalidKey(s@),
            KeyFromStrError::InvalidRepeat(s) => KeyErrorView::InvalidRepeat(s@),
            KeyFromStrError::InvalidModifier(s) => KeyErrorView::InvalidModifier(s@),
            KeyFromStrError::InvalidMode(s) => KeyErrorView::InvalidMode(s@),
        }
    }
}

/// An error in reading a mode.
#[derive(Debug, Clone, Copy, PartialEq, Eq, Structural)]
pub enum ModeFromStrError {
    /// Mode not found.
    ModeNameNotFound,
}

/// The key with the given name, compared without regard to ASCII case.
pub open spec fn spec_named_key(k: Seq<char>) -> Option<Key> {
    if eq_ignore_ascii_case(k, "Up"@) {
        Some(Key::Up)
    } else if eq_ignore_ascii_case(k, "Down"@) {
        Some(Key::Down)
    } else if eq_ignore_ascii_case(k, "Left"@) {
        Some(Key::Left)
    } else if eq_ignore_ascii_case(k, "Right"@) {
        Some(Key::Right)
    } else if eq_ignore_ascii_case(k, "Home"@) {
        Some(Key::Home)
    } else if eq_ignore_ascii_case(k, "End"@) {
        Some(Key::End)
    } else if eq_ignore_ascii_case(k, "PageDown"@) {
        Some(Key::PageDown)
    } else if eq_ignore_ascii_case(k, "PageUp"@) {
        Some(Key::PageUp)
    } else if eq_ignore_ascii_case(k, "Delete"@) {
        Some(Key::Delete)
    } else if eq_ignore_ascii_case(k, "Escape"@) {
        Some(Key::Escape)
    } else if eq_ignore_ascii_case(k, "F1"@) {
        Some(Key::F1)
    } else if eq_ignore_ascii_case(k, "F2"@) {
        Some(Key::F2)
    } else if eq_ignore_ascii_case(k, "F3"@) {
        Some(Key::F3)
    } else if eq_ignore_ascii_case(k, "F4"@) {
        Some(Key::F4)
    } else if eq_ignore_ascii_case(k, "F5"@) {
        Some(Key::F5)
    } else if eq_ignore_ascii_case(k, "F6"@) {
        Some(Key::F6)
    } else if eq_ignore_ascii_case(k, "F7"@) {
        Some(Key::F7)
    } else if eq_ignore_ascii_case(k, "F8"@) {
        Some(Key::F8)
    } else if eq_ignore_ascii_case(k, "F9"@) {
        Some(Key::F9)
    } else if eq_ignore_ascii_case(k, "F10"@) {
        Some(Key::F10)
    } else if eq_ignore_ascii_case(k, "F11"@) {
        Some(Key::F11)
    } else if eq_ignore_ascii_case(k, "F12"@) {
        Some(Key::F12)
    } else if eq_ignore_ascii_case(k, "Return"@) {
        Some(Key::Return)
    } else if eq_ignore_ascii_case(k, "Space"@) {
        Some(Key::Space)
    } else if eq_ignore_ascii_case(k, "Tab"@) {
        Some(Key::Tab)
    } else if eq_ignore_ascii_case(k, "PrintScreen"@) {
        Some(Key::PrintScreen)
    } else if eq_ignore_ascii_case(k, "ScrollLock"@) {
        Some(Key::ScrollLock)
    } else if eq_ignore_ascii_case(k, "Pause"@) {
        Some(Key::Pause)
    } else if eq_ignore_ascii_case(k, "NumLock"@) {
        Some(Key::NumLock)
    } else if eq_ignore_ascii_case(k, "KpReturn"@) {
        Some(Key::KpReturn)
    } else if eq_ignore_ascii_case(k, "KpMinus"@) {
        Some(Key::KpMinus)
    } else if eq_ignore_ascii_case(k, "KpPlus"@) {
        Some(Key::KpPlus)
    } else if eq_ignore_ascii_case(k, "KpMultiply"@) {
        Some(Key::KpMultiply)
    } else if eq_ignore_ascii_case(k, "KpDivide"@) {
        Some(Key::KpDivide)
    } else if eq_ignore_ascii_case(k, "Kp0"@) {
        Some(Key::Kp0)
    } else if eq_ignore_ascii_case(k, "Kp1"@) {
        Some(Key::Kp1)
    } else if eq_ignore_ascii_case(k, "Kp2"@) {
        Some(Key::Kp2)
    } else if eq_ignore_ascii_case(k, "Kp3"@) {
        Some(Key::Kp3)
    } else if eq_ignore_ascii_case(k, "Kp4"@) {
        Some(Key::Kp4)
    } else if eq_ignore_ascii_case(k, "Kp5"@) {
        Some(Key::Kp5)
    } else if eq_ignore_ascii_case(k, "Kp6"@) {
        Some(Key::Kp6)
    } else if eq_ignore_ascii_case(k, "Kp7"@) {
        Some(Key::Kp7)
    } else if eq_ignore_ascii_case(k, "Kp8"@) {
        Some(Key::Kp8)
    } else if eq_ignore_ascii_case(k, "Kp9"@) {
        Some(Key::Kp9)
    } else if eq_ignore_ascii_case(k, "KpDelete"@) {
        Some(Key::KpDelete)
    } else {
        None
    }
}

/// The name a key is written with in a key binding, if it has one: each named key by its
/// own name. Other keys are written as their character, or cannot be written at all.
pub open spec fn key_name(key: Key) -> Option<Seq<char>> {
    match key {
        Key::Up => Some("Up"@),
        Key::Down => Some("Down"@),
        Key::Left => Some("Left"@),
        Key::Right => Some("Right"@),
        Key::Home => Some("Home"@),
        Key::End => Some("End"@),
        Key::PageDown => Some("PageDown"@),
        Key::PageUp => Some("PageUp"@),
        Key::Delete => Some("Delete"@),
        Key::Escape => Some("Escape"@),
        Key::F1 => Some("F1"@),
        Key::F2 => Some("F2"@),
        Key::F3 => Some("F3"@),
        Key::F4 => Some("F4"@),
        Key::F5 => Some("F5"@),
        Key::F6 => Some("F6"@),
        Key::F7 => Some("F7"@),
        Key::F8 => Some("F8"@),
        Key::F9 => Some("F9"@),
        Key::F10 => Some("F10"@),
        Key::F11 => Some("F11"@),
        Key::F12 => Some("F12"@),
        Key::Return => Some("Return"@),
        Key::Space => Some("Space"@),
        Key::Tab => Some("Tab"@),
        Key::PrintScreen => Some("PrintScreen"@),
        Key::ScrollLock => Some("ScrollLock"@),
        Key::Pause => Some("Pause"@),
        Key::NumLock => Some("NumLock"@),
        Key::KpReturn => Some("KpReturn"@),
        Key::KpMinus => Some("KpMinus"@),
        Key::KpPlus => Some("KpPlus"@),
        Key::KpMultiply => Some("KpMultiply"@),
        Key::KpDivide => Some("KpDivide"@),
        Key::Kp0 => Some("Kp0"@),
        Key::Kp1 => Some("Kp1"@),
        Key::Kp2 => Some("Kp2"@),
        Key::Kp3 => Some("Kp3"@),
        Key::Kp4 => Some("Kp4"@),
        Key::Kp5 => Some("Kp5"@),
        Key::Kp6 => Some("Kp6"@),
        Key::Kp7 => Some("Kp7"@),
        Key::Kp8 => Some("Kp8"@),
        Key::Kp9 => Some("Kp9"@),
        Key::KpDelete => Some("KpDelete"@),
        _ => None,
    }
}

/// A single printable ASCII character (one byte of text).
pub open spec fn single_printable(k: Seq<char>) -> bool {
    k.len() == 1 && (k[0] as u32) < 128 && !is_ascii_control(k[0]) && !is_whitespace(k[0])
}

/// How [`Key::from_str`] reads a key: a single printable ASCII character stands for itself;
/// otherwise the key is looked up by name.
pub open spec fn spec_key(k: Seq<char>) -> Result<Key, KeyErrorView> {
    if k.len() == 0 {
        Err(KeyErrorView::EmptyKey)
    } else if single_printable(k) {
        Ok(Key::Other(k[0]))
    } else {
        match spec_named_key(k) {
            Some(key) => Ok(key),
            None => Err(KeyErrorView::InvalidKey(k)),
        }
    }
}

/// The key named by the characters, if any.
fn named_key(k: &[char]) -> (r: Option<Key>)
    ensures
        r == spec_named_key(k@),
{
    if matches_ignore_case(k, "Up") {
        return Some(Key::Up);
    }
    if matches_ignore_case(k, "Down") {
        return Some(Key::Down);
    }
    if matches_ignore_case(k, "Left") {
        return Some(Key::Left);
    }
    if matches_ignore_case(k, "Right") {
        return Some(Key::Right);
    }
    if matches_ignore_case(k, "Home") {
        return Some(Key::Home);
    }
    if matches_ignore_case(k, "End") {
        return Some(Key::End);
    }
    if matches_ignore_case(k, "PageDown") {
        return Some(Key::PageDown);
    }
    if matches_ignore_case(k, "PageUp") {
        return Some(Key::PageUp);
    }
    if matches_ignore_case(k, "Delete") {
        return Some(Key::Delete);
    }
    if matches_ignore_case(k, "Escape") {
        return Some(Key::Escape);
    }
    if matches_ignore_case(k, "F1") {
        return Some(Key::F1);
    }
    if matches_ignore_case(k, "F2") {
        return Some(Key::F2);
    }
    if matches_ignore_case(k, "F3") {
        return Some(Key::F3);
    }
    if matches_ignore_case(k, "F4") {
        return Some(Key::F4);
    }
    if matches_ignore_case(k, "F5") {
        return Some(Key::F5);
    }
    if matches_ignore_case(k, "F6") {
        return Some(Key::F6);
    }
    if matches_ignore_case(k, "F7") {
        return Some(Key::F7);
    }
    if matches_ignore_case(k, "F8") {
        return Some(Key::F8);
    }
    if matches_ignore_case(k, "F9") {
        return Some(Key::F9);
    }
    if matches_ignore_case(k, "F10") {
        return Some(Key::F10);
    }
    if matches_ignore_case(k, "F11") {
        return Some(Key::F11);
    }
    if matches_ignore_case(k, "F12") {
        return Some(Key::F12);
    }
    if matches_ignore_case(k, "Return") {
        return Some(Key::Return);
    }
    if matches_ignore_case(k, "Space") {
        return Some(Key::Space);
    }
    if matches_ignore_case(k, "Tab") {
        return Some(Key::Tab);
    }
    if matches_ignore_case(k, "PrintScreen") {
        return Some(Key::PrintScreen);
    }
    if matches_ignore_case(k, "ScrollLock") {
        return Some(Key::ScrollLock);
    }
    if matches_ignore_case(k, "Pause") {
        return Some(Key::Pause);
    }
    if matches_ignore_case(k, "NumLock") {
        return Some(Key::NumLock);
    }
    if matches_ignore_case(k, "KpReturn") {
        return Some(Key::KpReturn);
    }
    if matches_ignore_case(k, "KpMinus") {
        return Some(Key::KpMinus);
    }
    if matches_ignore_case(k, "KpPlus") {
        return Some(Key::KpPlus);
    }
    if matches_ignore_case(k, "KpMultiply") {
        return Some(Key::KpMultiply);
    }
    if matches_ignore_case(k, "KpDivide") {
        return Some(Key::KpDivide);
    }
    if matches_ignore_case(k, "Kp0") {
        return Some(Key::Kp0);
    }
    if matches_ignore_case(k, "Kp1") {
        return Some(Key::Kp1);
    }
    if matches_ignore_case(k, "Kp2") {
        return Some(Key::Kp2);
    }
    if matches_ignore_case(k, "Kp3") {
        return Some(Key::Kp3);
    }
    if matches_ignore_case(k, "Kp4") {
        return Some(Key::Kp4);
    }
    if matches_ignore_case(k, "Kp5") {
        return Some(Key::Kp5);
    }
    if matches_ignore_case(k, "Kp6") {
        return Some(Key::Kp6);
    }
    if matches_ignore_case(k, "Kp7") {
        return Some(Key::Kp7);
    }
    if matches_ignore_case(k, "Kp8") {
        return Some(Key::Kp8);
    }
    if matches_ignore_case(k, "Kp9") {
        return Some(Key::Kp9);
    }
    if matches_ignore_case(k, "KpDelete") {
        return Some(Key::KpDelete);
    }
    None
}

impl Key {
    /// Reads a key from its characters.
    pub fn from_chars(k: &[char]) -> (r: Result<Key, KeyFromStrError>)
        ensures
            match spec_key(k@) {
                Ok(key) => r == Ok::<Key, KeyFromStrError>(key),
                Err(e) => r matches Err(err) && err@ == e,
            },
    {
        if k.len() == 0 {
            return Err(KeyFromStrError::EmptyKey);
        }
        if k.len() == 1 {
            let c = k[0];
            let u = c as u32;
            if u < 128 && !(u < 0x20 || u == 0x7f) && !char_is_whitespace(c) {
                return Ok(Key::Other(c));
            }
        }
        match named_key(k) {
            Some(key) => Ok(key),
            None => Err(KeyFromStrError::InvalidKey(string_of(k))),
        }
    }

    /// Reads a key: a single printable ASCII character stands for itself; otherwise the key is
    /// looked up by name, without regard to ASCII case.
    pub fn from_str(key: &str) -> (r: Result<Key, KeyFromStrError>)
        ensures
            match spec_key(key@) {
                Ok(k) => r == Ok::<Key, KeyFromStrError>(k),
                Err(e) => r matches Err(err) && err@ == e,
            },
    {
        let v = chars_of(key);
        Key::from_chars(v.as_slice())
    }
}

impl std::str::FromStr for Key {
    type Err = KeyFromStrError;

    /// The same as [`Key::from_str`].
    fn from_str(key: &str) -> (r: Result<Key, KeyFromStrError>)
        ensures
            match spec_key(key@) {
                Ok(k) => r == Ok::<Key, KeyFromStrError>(k),
                Err(e) => r matches Err(err) && err@ == e,
            },
    {
        Key::from_str(key)
    }
}

/// A set of modifier keys, one bit each.
#[derive(Clone, Copy, Debug, PartialEq, Eq, Hash, Structural)]
pub struct Modifiers {
    bits: u16,
}

/// The bits of the defined modifiers, together.
pub const ALL_MODIFIER_BITS: u16 = 0x3ff;

#[allow(non_snake_case)]
impl Modifiers {
    /// The bits of the set.
    pub closed spec fn spec_bits(self) -> u16 {
        self.bits
    }

    /// The set with exactly the given bits.
    pub closed spec fn spec_from_bits(bits: u16) -> Modifiers {
        Modifiers { bits }
    }

    /// The bits of the set.
    pub fn bits(&self) -> (b: u16)
        ensures
            b == self.spec_bits(),
    {
        self.bits
    }

    /// The set with the given bits, keeping only those of defined modifiers.
    pub fn from_bits_truncate(bits: u16) -> (m: Modifiers)
        ensures
            m.spec_bits() == bits & ALL_MODIFIER_BITS,
    {
        Modifiers { bits: bits & ALL_MODIFIER_BITS }
    }

    /// No modifier.
    pub fn empty() -> (m: Modifiers)
        ensures
            m.spec_bits() == 0,
    {
        Modifiers { bits: 0 }
    }

    /// Every modifier.
    pub fn all() -> (m: Modifiers)
        ensures
            m.spec_bits() == ALL_MODIFIER_BITS,
    {
        Modifiers { bits: ALL_MODIFIER_BITS }
    }

    /// No modifier.
    pub fn NONE() -> (m: Modifiers)
        ensures
            m.spec_bits() == 0,
    {
        Modifiers { bits: 0 }
    }

    /// The screen reader key: usually caps lock, insert, or keypad insert.
    pub fn ODILIA() -> (m: Modifiers)
        ensures
            m.spec_bits() == 1,
    {
        Modifiers { bits: 1 }
    }

    /// Left control.
    pub fn CONTROL_L() -> (m: Modifiers)
        ensures
            m.spec_bits() == 2,
    {
        Modifiers { bits: 2 }
    }

    /// Right control.
    pub fn CONTROL_R() -> (m: Modifiers)
        ensures
            m.spec_bits() == 4,
    {
        Modifiers { bits: 4 }
    }

    /// Either control.
    pub fn CONTROL() -> (m: Modifiers)
        ensures
            m.spec_bits() == 6,
    {
        Modifiers { bits: 6 }
    }

    /// Left alt.
    pub fn ALT_L() -> (m: Modifiers)
        ensures
            m.spec_bits() == 8,
    {
        Modifiers { bits: 8 }
    }

    /// Right alt.
    pub fn ALT_R() -> (m: Modifiers)
        ensures
            m.spec_bits() == 16,
    {
        Modifiers { bits: 16 }
    }

    /// Either alt.
    pub fn ALT() -> (m: Modifiers)
        ensures
            m.spec_bits() == 24,
    {
        Modifiers { bits: 24 }
    }

    /// Left shift.
    pub fn SHIFT_L() -> (m: Modifiers)
        ensures
            m.spec_bits() == 32,
    {
        Modifiers { bits: 32 }
    }

    /// Right shift.
    pub fn SHIFT_R() -> (m: Modifiers)
        ensures
            m.spec_bits() == 64,
    {
        Modifiers { bits: 64 }
    }

    /// Either shift.
    pub fn SHIFT() -> (m: Modifiers)
        ensures
            m.spec_bits() == 96,
    {
        Modifiers { bits: 96 }
    }

    /// Left meta.
    pub fn META_L() -> (m: Modifiers)
        ensures
            m.spec_bits() == 128,
    {
        Modifiers { bits: 128 }
    }

    /// Right meta.
    pub fn META_R() -> (m: Modifiers)
        ensures
            m.spec_bits() == 256,
    {
        Modifiers { bits: 256 }
    }

    /// Either meta.
    pub fn META() -> (m: Modifiers)
        ensures
            m.spec_bits() == 384,
    {
        Modifiers { bits: 384 }
    }

    /// The applications key.
    pub fn APPLICATIONS() -> (m: Modifiers)
        ensures
            m.spec_bits() == 512,
    {
        Modifiers { bits: 512 }
    }

    /// Whether the sets share a modifier.
    pub fn intersects(self, other: Modifiers) -> (b: bool)
        ensures
            b == (self.spec_bits() & other.spec_bits() != 0),
    {
        self.bits & other.bits != 0
    }

    /// Whether either control key is in the set.
    pub fn control(self) -> (b: bool)
        ensures
            b == (self.spec_bits() & 6 != 0),
    {
        self.bits & 6 != 0
    }

    /// Whether either alt key is in the set.
    pub fn alt(self) -> (b: bool)
        ensures
            b == (self.spec_bits() & 24 != 0),
    {
        self.bits & 24 != 0
    }

    /// Whether either shift key is in the set.
    pub fn shift(self) -> (b: bool)
        ensures
            b == (self.spec_bits() & 96 != 0),
    {
        self.bits & 96 != 0
    }

    /// Whether either meta key is in the set.
    pub fn meta(self) -> (b: bool)
        ensures
            b == (self.spec_bits() & 384 != 0),
    {
        self.bits & 384 != 0
    }

    /// Whether a left-hand control, alt, shift or meta key is in the set.
    pub fn left(self) -> (b: bool)
        ensures
            b == (self.spec_bits() & 170 != 0),
    {
        self.bits & 170 != 0
    }

    /// Whether a right-hand control, alt, shift or meta key is in the set.
    pub fn right(self) -> (b: bool)
        ensures
            b == (self.spec_bits() & 340 != 0),
    {
        self.bits & 340 != 0
    }
}

impl Default for Modifiers {
    fn default() -> (m: Modifiers)
        ensures
            m.spec_bits() == 0,
    {
        Modifiers { bits: 0 }
    }
}

impl BitOr for Modifiers {
    type Output = Modifiers;

    fn bitor(self, rhs: Modifiers) -> (m: Modifiers) {
        Modifiers { bits: self.bits | rhs.bits }
    }
}

impl BitOrSpecImpl for Modifiers {
    open spec fn obeys_bitor_spec() -> bool {
        true
    }

    open spec fn bitor_req(self, rhs: Modifiers) -> bool {
        true
    }

    open spec fn bitor_spec(self, rhs: Modifiers) -> Modifiers {
        Modifiers::spec_from_bits(self.spec_bits() | rhs.spec_bits())
    }
}

impl BitOrAssign for Modifiers {
    fn bitor_assign(&mut self, rhs: Modifiers)
        ensures
            final(self).spec_bits() == old(self).spec_bits() | rhs.spec_bits(),
    {
        self.bits = self.bits | rhs.bits;
    }
}

/// The modifier bits of a modifier name, compared without regard to ASCII case.
pub open spec fn spec_modifier_bits(m: Seq<char>) -> Option<u16> {
    if eq_ignore_ascii_case(m, "Odilia"@) {
        Some(1)
    } else if eq_ignore_ascii_case(m, "Applications"@) {
        Some(512)
    } else if eq_ignore_ascii_case(m, "LeftControl"@) {
        Some(2)
    } else if eq_ignore_ascii_case(m, "RightControl"@) {
        Some(4)
    } else if eq_ignore_ascii_case(m, "Control"@) {
        Some(6)
    } else if eq_ignore_ascii_case(m, "LeftAlt"@) {
        Some(8)
    } else if eq_ignore_ascii_case(m, "RightAlt"@) {
        Some(16)
    } else if eq_ignore_ascii_case(m, "Alt"@) {
        Some(24)
    } else if eq_ignore_ascii_case(m, "LeftShift"@) {
        Some(32)
    } else if eq_ignore_ascii_case(m, "RightShift"@) {
        Some(64)
    } else if eq_ignore_ascii_case(m, "Shift"@) {
        Some(96)
    } else if eq_ignore_ascii_case(m, "LeftMeta"@) {
        Some(128)
    } else if eq_ignore_ascii_case(m, "RightMeta"@) {
        Some(256)
    } else if eq_ignore_ascii_case(m, "Meta"@) {
        Some(384)
    } else {
        None
    }
}

/// The modifier bits of a modifier name.
fn modifier_bits(m: &[char]) -> (r: Option<u16>)
    ensures
        r == spec_modifier_bits(m@),
{
    if matches_ignore_case(m, "Odilia") {
        return Some(1);
    }
    if matches_ignore_case(m, "Applications") {
        return Some(512);
    }
    if matches_ignore_case(m, "LeftControl") {
        return Some(2);
    }
    if matches_ignore_case(m, "RightControl") {
        return Some(4);
    }
    if matches_ignore_case(m, "Control") {
        return Some(6);
    }
    if matches_ignore_case(m, "LeftAlt") {
        return Some(8);
    }
    if matches_ignore_case(m, "RightAlt") {
        return Some(16);
    }
    if matches_ignore_case(m, "Alt") {
        return Some(24);
    }
    if matches_ignore_case(m, "LeftShift") {
        return Some(32);
    }
    if matches_ignore_case(m, "RightShift") {
        return Some(64);
    }
    if matches_ignore_case(m, "Shift") {
        return Some(96);
    }
    if matches_ignore_case(m, "LeftMeta") {
        return Some(128);
    }
    if matches_ignore_case(m, "RightMeta") {
        return Some(256);
    }
    if matches_ignore_case(m, "Meta") {
        return Some(384);
    }
    None
}

/* Notice it has almost the same fields as KeyBinding. */
/// A key press together with the modifiers held and how often it was repeated.
#[derive(Clone, Copy, Debug, PartialEq, Eq, Hash)]
pub struct KeyEvent {
    pub key: Option<Key>,
    pub mods: Modifiers,
    pub repeat: u8,
}

/// A key binding: a key with modifiers and a repeat count, in a mode.
#[derive(Clone, Copy, Debug, PartialEq, Eq, Hash)]
pub struct KeyBinding {
    pub key: Option<Key>,
    pub mods: Modifiers,
    pub repeat: u8,
    /// If none, match all modes.
    pub mode: Option<ScreenReaderMode>,
    /// Whether or not to consume the event, or let it pass through.
    pub consume: bool,
    /// Whether to notify the screen reader that the key has been pressed.
    pub notify: bool,
}

/// Whether the binding consumes its key, and the rest of the text: text up to the first `|`
/// is the consume flag (`C` to consume), the rest follows it; without a `|`, nothing is
/// consumed.
pub open spec fn spec_consume_strip(s: Seq<char>) -> (bool, Seq<char>) {
    match find_char(s, '|') {
        Some(i) => (s.take(i) == "C"@, s.skip(i + 1)),
        None => (false, s),
    }
}

/// The mode of the given name.
pub open spec fn spec_mode_name(name: Seq<char>) -> Option<ScreenReaderMode> {
    if name == "Focus"@ {
        Some(ScreenReaderMode::Focus)
    } else if name == "Browse"@ {
        Some(ScreenReaderMode::Browse)
    } else {
        None
    }
}

/// The mode of the binding, and the rest of the text: text up to the first `|` names the mode,
/// the rest follows it; without a `|`, the binding has no mode. An unknown name is the error.
pub open spec fn spec_mode_strip(s: Seq<char>) -> Result<(Option<ScreenReaderMode>, Seq<char>), Seq<char>> {
    match find_char(s, '|') {
        Some(i) => match spec_mode_name(s.take(i)) {
            Some(m) => Ok((Some(m), s.skip(i + 1))),
            None => Err(s.take(i)),
        },
        None => Ok((None, s)),
    }
}

/// Strips the consume flag (the text up to the first `|`, `C` to consume) off a binding.
pub fn get_consume_strip(s: &str) -> (r: (bool, String))
    ensures
        (r.0, r.1@) == spec_consume_strip(s@),
{
    let v = chars_of(s);
    match find_char_index(v.as_slice(), '|') {
        Some(i) => {
            assert(i < v.len());
            let before = sub_chars(v.as_slice(), 0, i);
            let after = sub_chars(v.as_slice(), i + 1, v.len());
            assert(before@ =~= s@.take(i as int));
            assert(after@ =~= s@.skip(i + 1));
            (matches_exactly(before.as_slice(), "C"), string_of(after.as_slice()))
        },
        None => (false, string_of(v.as_slice())),
    }
}

/// The mode of the given name.
fn mode_from_name(name: &[char]) -> (r: Option<ScreenReaderMode>)
    ensures
        r == spec_mode_name(name@),
{
    if matches_exactly(name, "Focus") {
        Some(ScreenReaderMode::Focus)
    } else if matches_exactly(name, "Browse") {
        Some(ScreenReaderMode::Browse)
    } else {
        None
    }
}

/// Strips the mode (the text up to the first `|`, the mode's name) off a binding.
pub fn get_mode_strip(s: &str) -> (r: Result<(Option<ScreenReaderMode>, String), KeyFromStrError>)
    ensures
        match spec_mode_strip(s@) {
            Ok((m, rest)) => r matches Ok(p) && p.0 == m && p.1@ == rest,
            Err(name) => r matches Err(e) && e@ == KeyErrorView::InvalidMode(name),
        },
{
    let v = chars_of(s);
    match find_char_index(v.as_slice(), '|') {
        Some(i) => {
            assert(i < v.len());
            let before = sub_chars(v.as_slice(), 0, i);
            let after = sub_chars(v.as_slice(), i + 1, v.len());
            assert(before@ =~= s@.take(i as int));
            assert(after@ =~= s@.skip(i + 1));
            match mode_from_name(before.as_slice()) {
                Some(m) => Ok((Some(m), string_of(after.as_slice()))),
                None => Err(KeyFromStrError::InvalidMode(string_of(before.as_slice()))),
            }
        },
        None => Ok((None, string_of(v.as_slice()))),
    }
}

/// The modifier bits of the names, combined in order; the first unknown name is the error.
pub open spec fn spec_mods(ms: Seq<Seq<char>>) -> Result<u16, Seq<char>>
    decreases ms.len(),
{
    if ms.len() == 0 {
        Ok(0)
    } else {
        match spec_mods(ms.drop_last()) {
            Err(e) => Err(e),
            Ok(acc) => match spec_modifier_bits(ms.last()) {
                Some(b) => Ok(acc | b),
                None => Err(ms.last()),
            },
        }
    }
}

/// Once a prefix of the names holds an unknown one, so do all the names.
proof fn lemma_mods_error_sticks(ms: Seq<Seq<char>>, n: int)
    requires
        0 <= n <= ms.len(),
        spec_mods(ms.take(n)) is Err,
    ensures
        spec_mods(ms) == spec_mods(ms.take(n)),
    decreases ms.len() - n,
{
    if n < ms.len() {
        assert(ms.take(n + 1).drop_last() =~= ms.take(n));
        lemma_mods_error_sticks(ms, n + 1);
    } else {
        assert(ms.take(n) =~= ms);
    }
}

/// The modifier names of a binding, right to left: every `+`-separated piece but the last,
/// trimmed.
pub open spec fn modifier_names(pieces: Seq<Seq<char>>) -> Seq<Seq<char>> {
    Seq::new((pieces.len() - 1) as nat, |t: int| trim(pieces[pieces.len() - 2 - t]))
}

/// The binding read, once its modifiers are known.
pub open spec fn finish_binding(
    mods: Result<u16, Seq<char>>,
    key: Key,
    repeat: u8,
    mode: Option<ScreenReaderMode>,
    consume: bool,
) -> Result<KeyBinding, KeyErrorView> {
    match mods {
        Err(m) => Err(KeyErrorView::InvalidModifier(m)),
        Ok(bits) => Ok(
            KeyBinding {
                key: Some(key),
                mods: Modifiers::spec_from_bits(bits),
                repeat,
                mode,
                consume,
                notify: true,
            },
        ),
    }
}

/// How [`KeyBinding::from_str`] reads a binding: an optional consume flag and an optional mode,
/// each ended by `|`; then `+`-separated pieces, read from the right, each trimmed: the last is
/// the key, optionally followed by `:` and a repeat count (1 if absent); the others are
/// modifiers.
pub open spec fn spec_binding(s1: Seq<char>) -> Result<KeyBinding, KeyErrorView> {
    let (consume, s2) = spec_consume_strip(s1);
    match spec_mode_strip(s2) {
        Err(name) => Err(KeyErrorView::InvalidMode(name)),
        Ok((mode, s)) => {
            let pieces = split(s, '+');
            let sub = split(trim(pieces.last()), ':');
            match spec_key(sub[0]) {
                Err(e) => Err(e),
                Ok(key) => {
                    let rs = if sub.len() > 1 {
                        sub[1]
                    } else {
                        seq!['1']
                    };
                    match parse_u8(rs) {
                        None => Err(KeyErrorView::InvalidRepeat(rs)),
                        Some(repeat) => finish_binding(
                            spec_mods(modifier_names(pieces)),
                            key,
                            repeat,
                            mode,
                            consume,
                        ),
                    }
                },
            }
        },
    }
}

impl KeyBinding {
    /// Reads a key binding such as `C|Odilia+Shift+h:2`.
    pub fn from_str(s1: &str) -> (r: Result<KeyBinding, KeyFromStrError>)
        ensures
            match spec_binding(s1@) {
                Ok(kb) => r == Ok::<KeyBinding, KeyFromStrError>(kb),
                Err(e) => r matches Err(err) && err@ == e,
            },
    {
        let (consume, s2) = get_consume_strip(s1);
        let (mode, s) = match get_mode_strip(s2.as_str()) {
            Ok(p) => p,
            Err(e) => {
                return Err(e);
            },
        };
        let chars = chars_of(s.as_str());
        let pieces = split_chars(chars.as_slice(), '+');
        proof {
            lemma_split_nonempty(s@, '+');
        }
        let ghost pv = split(s@, '+');
        assert(pieces@.map_values(|p: Vec<char>| p@) == pv);
        let n = pieces.len();
        assert(pieces@[n - 1]@ == pv.last());
        let key_and_repeat = trimmed(pieces[n - 1].as_slice());
        let subparts = split_chars(key_and_repeat.as_slice(), ':');
        proof {
            lemma_split_nonempty(key_and_repeat@, ':');
        }
        let ghost sv = split(key_and_repeat@, ':');
        assert(subparts@.map_values(|p: Vec<char>| p@) == sv);
        assert(subparts@[0]@ == sv[0]);
        let key = match Key::from_chars(subparts[0].as_slice()) {
            Ok(k) => k,
            Err(e) => {
                return Err(e);
            },
        };
        let repeat_chars: Vec<char> = if subparts.len() > 1 {
            assert(subparts@[1]@ == sv[1]);
            sub_chars(subparts[1].as_slice(), 0, subparts[1].len())
        } else {
            let mut one: Vec<char> = Vec::new();
            one.push('1');
            assert(one@ =~= seq!['1']);
            one
        };
        assert(subparts.len() > 1 ==> repeat_chars@ =~= sv[1]);
        let repeat = match parse_u8_chars(repeat_chars.as_slice()) {
            Some(r) => r,
            None => {
                return Err(KeyFromStrError::InvalidRepeat(string_of(repeat_chars.as_slice())));
            },
        };
        let ghost ms = modifier_names(pv);
        assert(spec_binding(s1@) == finish_binding(spec_mods(ms), key, repeat, mode, consume));
        let mut mods = Modifiers::empty();
        let mut t: usize = 0;
        while t + 1 < n
            invariant
                n == pieces.len(),
                n >= 1,
                pieces@.map_values(|p: Vec<char>| p@) == pv,
                ms == modifier_names(pv),
                spec_binding(s1@) == finish_binding(spec_mods(ms), key, repeat, mode, consume),
                t + 1 <= n,
                spec_mods(ms.take(t as int)) == Ok::<u16, Seq<char>>(mods.spec_bits()),
            decreases n - t,
        {
            assert(pieces@[n - 2 - t]@ == pv[n - 2 - t]);
            let m = trimmed(pieces[n - 2 - t].as_slice());
            assert(m@ == ms[t as int]);
            assert(ms.take(t + 1).drop_last() =~= ms.take(t as int));
            match modifier_bits(m.as_slice()) {
                Some(b) => {
                    mods = Modifiers { bits: mods.bits | b };
                },
                None => {
                    proof {
                        lemma_mods_error_sticks(ms, t + 1);
                    }
                    return Err(KeyFromStrError::InvalidModifier(string_of(m.as_slice())));
                },
            }
            t = t + 1;
        }
        assert(ms.take(t as int) =~= ms);
        Ok(KeyBinding { key: Some(key), mods, repeat, mode, consume, notify: true })
    }
}

impl std::str::FromStr for KeyBinding {
    type Err = KeyFromStrError;

    /// The same as [`KeyBinding::from_str`].
    fn from_str(s: &str) -> (r: Result<KeyBinding, KeyFromStrError>)
        ensures
            match spec_binding(s@) {
                Ok(kb) => r == Ok::<KeyBinding, KeyFromStrError>(kb),
                Err(e) => r matches Err(err) && err@ == e,
            },
    {
        KeyBinding::from_str(s)
    }
}

/// How a key is read: the key read from `k` is either a named key, and `k` is its name up to
/// ASCII case, or the key of the single character `k` is. So a name gives the key of that
/// name and no other, two texts read as the same key are the same name (up to case) or the
/// same character, and every key name is read as some key.
pub proof fn law_key_names(k: Seq<char>, key: Key)
    ensures
        spec_key(k) == Ok::<Key, KeyErrorView>(key) ==> match key_name(key) {
            Some(n) => eq_ignore_ascii_case(k, n),
            None => key == Key::Other(k[0]) && k =~= seq![k[0]],
        },
        key_name(key) matches Some(n) && eq_ignore_ascii_case(k, n) ==> spec_key(k) is Ok,
{
    if key_name(key) matches Some(n) && eq_ignore_ascii_case(k, n) {
        reveal_strlit("Up");
        reveal_strlit("Down");
        reveal_strlit("Left");
        reveal_strlit("Right");
        reveal_strlit("Home");
        reveal_strlit("End");
        reveal_strlit("PageDown");
        reveal_strlit("PageUp");
        reveal_strlit("Delete");
        reveal_strlit("Escape");
        reveal_strlit("F1");
        reveal_strlit("F2");
        reveal_strlit("F3");
        reveal_strlit("F4");
        reveal_strlit("F5");
        reveal_strlit("F6");
        reveal_strlit("F7");
        reveal_strlit("F8");
        reveal_strlit("F9");
        reveal_strlit("F10");
        reveal_strlit("F11");
        reveal_strlit("F12");
        reveal_strlit("Return");
        reveal_strlit("Space");
        reveal_strlit("Tab");
        reveal_strlit("PrintScreen");
        reveal_strlit("ScrollLock");
        reveal_strlit("Pause");
        reveal_strlit("NumLock");
        reveal_strlit("KpReturn");
        reveal_strlit("KpMinus");
        reveal_strlit("KpPlus");
        reveal_strlit("KpMultiply");
        reveal_strlit("KpDivide");
        reveal_strlit("Kp0");
        reveal_strlit("Kp1");
        reveal_strlit("Kp2");
        reveal_strlit("Kp3");
        reveal_strlit("Kp4");
        reveal_strlit("Kp5");
        reveal_strlit("Kp6");
        reveal_strlit("Kp7");
        reveal_strlit("Kp8");
        reveal_strlit("Kp9");
        reveal_strlit("KpDelete");
        let n = key_name(key)->Some_0;
        assert(n.len() > 1);
        assert(k.len() > 1);
    }
}

/// Two texts read as the same key are the same key name up to ASCII case, or the same single
/// character: distinct key names give distinct keys.
pub proof fn law_key_names_distinct(a: Seq<char>, b: Seq<char>, key: Key)
    requires
        spec_key(a) == Ok::<Key, KeyErrorView>(key),
        spec_key(b) == Ok::<Key, KeyErrorView>(key),
    ensures
        eq_ignore_ascii_case(a, b) || a == b,
{
    law_key_names(a, key);
    law_key_names(b, key);
    if let Some(n) = key_name(key) {
        assert forall|i: int| 0 <= i < a.len() implies ascii_lower(#[trigger] a[i]) == ascii_lower(b[i]) by {
            assert(ascii_lower(a[i]) == ascii_lower(n[i]));
            assert(ascii_lower(b[i]) == ascii_lower(n[i]));
        }
    }
}

} // verus!
