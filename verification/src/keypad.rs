//! The sixteen keys of the CHIP-8 keypad and their pressed state.

use vstd::prelude::*;

verus! {

/// Keypad definitions for the Chip 8 buttons
#[derive(Debug, Clone, Copy, PartialEq, Eq, Structural)]
pub enum KeypadKey {
    Num1,
    Num2,
    Num3,
    C,
    Num4,
    Num5,
    Num6,
    D,
    Num7,
    Num8,
    Num9,
    E,
    A,
    Num0,
    B,
    F,
}

/// The hexadecimal value that a key stands for.
pub open spec fn key_value(key: KeypadKey) -> nat {
    match key {
        KeypadKey::Num0 => 0x0,
        KeypadKey::Num1 => 0x1,
        KeypadKey::Num2 => 0x2,
        KeypadKey::Num3 => 0x3,
        KeypadKey::Num4 => 0x4,
        KeypadKey::Num5 => 0x5,
        KeypadKey::Num6 => 0x6,
        KeypadKey::Num7 => 0x7,
        KeypadKey::Num8 => 0x8,
        KeypadKey::Num9 => 0x9,
        KeypadKey::A => 0xA,
        KeypadKey::B => 0xB,
        KeypadKey::C => 0xC,
        KeypadKey::D => 0xD,
        KeypadKey::E => 0xE,
        KeypadKey::F => 0xF,
    }
}

/// The key whose value is `v`, for `v` below 16.
pub open spec fn key_of_value(v: nat) -> KeypadKey {
    if v == 0x0 { KeypadKey::Num0 }
    else if v == 0x1 { KeypadKey::Num1 }
    else if v == 0x2 { KeypadKey::Num2 }
    else if v == 0x3 { KeypadKey::Num3 }
    else if v == 0x4 { KeypadKey::Num4 }
    else if v == 0x5 { KeypadKey::Num5 }
    else if v == 0x6 { KeypadKey::Num6 }
    else if v == 0x7 { KeypadKey::Num7 }
    else if v == 0x8 { KeypadKey::Num8 }
    else if v == 0x9 { KeypadKey::Num9 }
    else if v == 0xA { KeypadKey::A }
    else if v == 0xB { KeypadKey::B }
    else if v == 0xC { KeypadKey::C }
    else if v == 0xD { KeypadKey::D }
    else if v == 0xE { KeypadKey::E }
    else { KeypadKey::F }
}

/// The keys in the order in which the keypad lays them out
/// (rows `1 2 3 C`, `4 5 6 D`, `7 8 9 E`, `A 0 B F`).
pub open spec fn keypad_order() -> Seq<KeypadKey> {
    seq![
        KeypadKey::Num1, KeypadKey::Num2, KeypadKey::Num3, KeypadKey::C,
        KeypadKey::Num4, KeypadKey::Num5, KeypadKey::Num6, KeypadKey::D,
        KeypadKey::Num7, KeypadKey::Num8, KeypadKey::Num9, KeypadKey::E,
        KeypadKey::A, KeypadKey::Num0, KeypadKey::B, KeypadKey::F,
    ]
}

/// Keypad keys on the chip 8, in layout order.
pub fn keypad_keys() -> (keys: [KeypadKey; 16])
    ensures
        keys@ == keypad_order(),
{
    let keys = [
        KeypadKey::Num1, KeypadKey::Num2, KeypadKey::Num3, KeypadKey::C,
        KeypadKey::Num4, KeypadKey::Num5, KeypadKey::Num6, KeypadKey::D,
        KeypadKey::Num7, KeypadKey::Num8, KeypadKey::Num9, KeypadKey::E,
        KeypadKey::A, KeypadKey::Num0, KeypadKey::B, KeypadKey::F,
    ];
    assert(keys@ =~= keypad_order());
    keys
}

impl KeypadKey {
    /// Get the index of the key
    pub fn key_index(&self) -> (index: usize)
        ensures
            index == key_value(*self),
    {
        match self {
            KeypadKey::Num1 => 0x1,
            KeypadKey::Num2 => 0x2,
            KeypadKey::Num3 => 0x3,
            KeypadKey::C => 0xC,
            KeypadKey::Num4 => 0x4,
            KeypadKey::Num5 => 0x5,
            KeypadKey::Num6 => 0x6,
            KeypadKey::D => 0xD,
            KeypadKey::Num7 => 0x7,
            KeypadKey::Num8 => 0x8,
            KeypadKey::Num9 => 0x9,
            KeypadKey::E => 0xE,
            KeypadKey::A => 0xA,
            KeypadKey::Num0 => 0x0,
            KeypadKey::B => 0xB,
            KeypadKey::F => 0xF,
        }
    }

    /// Get the name of the key for UI purposes: its hexadecimal digit.
    pub fn name(&self) -> (name: &'static str)
        ensures
            name@ == key_name(*self),
    {
        match self {
            KeypadKey::Num1 => "1",
            KeypadKey::Num2 => "2",
            KeypadKey::Num3 => "3",
            KeypadKey::C => "C",
            KeypadKey::Num4 => "4",
            KeypadKey::Num5 => "5",
            KeypadKey::Num6 => "6",
            KeypadKey::D => "D",
            KeypadKey::Num7 => "7",
            KeypadKey::Num8 => "8",
            KeypadKey::Num9 => "9",
            KeypadKey::E => "E",
            KeypadKey::A => "A",
            KeypadKey::Num0 => "0",
            KeypadKey::B => "B",
            KeypadKey::F => "F",
        }
    }
}

/// The label of a key: the upper-case hexadecimal digit of its value.
pub open spec fn key_name(key: KeypadKey) -> Seq<char> {
    match key {
        KeypadKey::Num0 => "0"@,
        KeypadKey::Num1 => "1"@,
        KeypadKey::Num2 => "2"@,
        KeypadKey::Num3 => "3"@,
        KeypadKey::Num4 => "4"@,
        KeypadKey::Num5 => "5"@,
        KeypadKey::Num6 => "6"@,
        KeypadKey::Num7 => "7"@,
        KeypadKey::Num8 => "8"@,
        KeypadKey::Num9 => "9"@,
        KeypadKey::A => "A"@,
        KeypadKey::B => "B"@,
        KeypadKey::C => "C"@,
        KeypadKey::D => "D"@,
        KeypadKey::E => "E"@,
        KeypadKey::F => "F"@,
    }
}

/// Converting an index into a key clamps the index to 15 first, so every
/// index from 15 up gives `F`.
pub open spec fn key_from_index(value: usize) -> KeypadKey {
    if value >= 15 { KeypadKey::F } else { key_of_value(value as nat) }
}

impl From<usize> for KeypadKey {
    fn from(value: usize) -> (key: Self) {
        let v = if value > 15 { 15 } else { value };
        match v {
            0x1 => KeypadKey::Num1,
            0x2 => KeypadKey::Num2,
            0x3 => KeypadKey::Num3,
            0xC => KeypadKey::C,
            0x4 => KeypadKey::Num4,
            0x5 => KeypadKey::Num5,
            0x6 => KeypadKey::Num6,
            0xD => KeypadKey::D,
            0x7 => KeypadKey::Num7,
            0x8 => KeypadKey::Num8,
            0x9 => KeypadKey::Num9,
            0xE => KeypadKey::E,
            0xA => KeypadKey::A,
            0x0 => KeypadKey::Num0,
            0xB => KeypadKey::B,
            _ => KeypadKey::F,
        }
    }
}

impl vstd::std_specs::convert::FromSpecImpl<usize> for KeypadKey {
    open spec fn obeys_from_spec() -> bool {
        true
    }

    open spec fn from_spec(v: usize) -> KeypadKey {
        key_from_index(v)
    }
}

/// Current state of the keypad: one byte per key value, 1 when pressed.
#[derive(Debug, PartialEq, Eq)]
pub struct Keypad(pub [u8; 16]);

impl Keypad {
    /// The state byte of every key, indexed by key value.
    pub open spec fn state(&self) -> Seq<u8> {
        self.0@
    }

    /// Whether the key with value `i` is pressed.
    pub open spec fn pressed(&self, i: int) -> bool {
        self.0@[i] == 1
    }

    /// Set the state of a key
    pub fn set_key(&mut self, key: &KeypadKey, state: bool)
        ensures
            final(self).state() == old(self).state().update(
                key_value(*key) as int,
                if state { 1u8 } else { 0u8 },
            ),
    {
        let i = key.key_index();
        self.0[i] = if state { 1 } else { 0 };
    }

    /// Get the state of a key
    pub fn key(&self, key: &KeypadKey) -> (state: u8)
        ensures
            state == self.state()[key_value(*key) as int],
    {
        self.0[key.key_index()]
    }

    /// Get the state of a key as a boolean
    pub fn is_key_pressed(&self, key: &KeypadKey) -> (pressed: bool)
        ensures
            pressed == self.pressed(key_value(*key) as int),
    {
        self.key(key) == 1
    }
}

impl Default for Keypad {
    fn default() -> (keypad: Self)
        ensures
            forall|i: int| 0 <= i < 16 ==> keypad.state()[i] == 0,
    {
        Keypad([0u8; 16])
    }
}

} // verus!
