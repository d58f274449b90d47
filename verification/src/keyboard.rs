use vstd::prelude::*;

verus! {

/// Bit of the Alt modifier.
pub const ALT: u32 = 0x01;

/// Bit of the AltGraph modifier.
pub const ALT_GRAPH: u32 = 0x02;

/// Bit of the CapsLock state.
pub const CAPS_LOCK: u32 = 0x04;

/// Bit of the Control modifier.
pub const CONTROL: u32 = 0x08;

/// Bit of the Meta (command, windows) modifier.
pub const META: u32 = 0x40;

/// Bit of the Shift modifier.
pub const SHIFT: u32 = 0x200;

/// Every modifier bit that a key event can carry.
pub const ALL_MODIFIERS: u32 = 0x3fff;

/// A set of keyboard modifiers, one bit per modifier.
#[derive(Clone, Copy, Debug, PartialEq, Eq, Hash, Structural)]
pub struct Modifiers {
    pub bits: u32,
}

impl Modifiers {
    pub fn empty() -> (r: Modifiers)
        ensures
            r.bits == 0,
    {
        Modifiers { bits: 0 }
    }

    pub fn from_bits(bits: u32) -> (r: Modifiers)
        ensures
            r.bits == bits & ALL_MODIFIERS,
    {
        Modifiers { bits: bits & ALL_MODIFIERS }
    }

    pub open spec fn has(self, flag: u32) -> bool {
        self.bits & flag == flag
    }

    /// Whether every bit of `flag` is set.
    pub fn contains(&self, flag: u32) -> (r: bool)
        ensures
            r == self.has(flag),
    {
        self.bits & flag == flag
    }

    /// Whether some bit of `flag` is set.
    pub fn intersects(&self, flag: u32) -> (r: bool)
        ensures
            r == (self.bits & flag != 0),
    {
        self.bits & flag != 0
    }

    pub fn is_empty(&self) -> (r: bool)
        ensures
            r == (self.bits == 0),
    {
        self.bits == 0
    }

    /// Sets or clears the bits of `flag`.
    pub fn set(&mut self, flag: u32, value: bool)
        ensures
            final(self).bits == if value {
                old(self).bits | flag
            } else {
                old(self).bits & !flag
            },
    {
        if value {
            self.bits = self.bits | flag;
        } else {
            self.bits = self.bits & !flag;
        }
    }

    pub fn control(&self) -> (r: bool)
        ensures
            r == self.has(CONTROL),
    {
        self.contains(CONTROL)
    }

    pub fn alt(&self) -> (r: bool)
        ensures
            r == self.has(ALT),
    {
        self.contains(ALT)
    }

    pub fn meta(&self) -> (r: bool)
        ensures
            r == self.has(META),
    {
        self.contains(META)
    }

    pub fn shift(&self) -> (r: bool)
        ensures
            r == self.has(SHIFT),
    {
        self.contains(SHIFT)
    }
}

/// The named (non-character) keys that the views react to.
#[derive(Clone, Copy, Debug, PartialEq, Eq, Hash, Structural)]
pub enum NamedKey {
    Alt,
    AltGraph,
    ArrowDown,
    ArrowLeft,
    ArrowRight,
    ArrowUp,
    Backspace,
    Control,
    Delete,
    End,
    Enter,
    Escape,
    Home,
    Insert,
    Meta,
    PageDown,
    PageUp,
    Shift,
    Tab,
}

/// The logical key of a key event.
#[derive(Clone, Debug, PartialEq, Eq, Hash)]
pub enum Key {
    /// A key that produces text.
    Character(String),
    Named(NamedKey),
    /// Any other named key, by its name.
    Other(String),
}

/// The physical key codes that the views react to.
#[derive(Clone, Copy, Debug, PartialEq, Eq, Hash, Structural)]
pub enum KeyCode {
    KeyA,
    KeyC,
    KeyV,
    KeyX,
    AltLeft,
    AltRight,
    ControlLeft,
    ControlRight,
    MetaLeft,
    MetaRight,
    ShiftLeft,
    ShiftRight,
    /// Any other key code, by the platform's number for it.
    Other(u32),
}

/// Where a key is on the keyboard.
#[derive(Clone, Copy, Debug, PartialEq, Eq, Hash, Structural)]
pub enum PhysicalKey {
    Code(KeyCode),
    Unidentified,
}

/// A key press as the views see it.
#[derive(Clone, Debug)]
pub struct KeyEvent {
    pub key: Key,
    pub physical_key: PhysicalKey,
    pub modifiers: Modifiers,
}

} // verus!
