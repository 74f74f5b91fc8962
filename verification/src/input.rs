//! Keyboard layouts: which host key presses which CHIP-8 key.
//!
//! The keypad's four rows `1 2 3 C`, `4 5 6 D`, `7 8 9 E`, `A 0 B F` lie on
//! the host keys `1 2 3 4`, `Q W E R`, `A S D F`, `Z X C V` of a QWERTY
//! keyboard (`1 2 3 4`, `A Z E R`, `Q S D F`, `W X C V` on AZERTY). The
//! arrow keys and the space bar stand in for the keys on `W`, `S`, `A`,
//! `D` and `E` of the QWERTY layout.

use vstd::prelude::*;
use crate::keypad::{key_value, Keypad, KeypadKey};

verus! {

/// The host keyboard keys that the layouts use; `Other` is any other key.
#[derive(Debug, Clone, Copy, PartialEq, Eq, Structural)]
pub enum InputKey {
    Num1,
    Num2,
    Num3,
    Num4,
    Q,
    W,
    E,
    R,
    A,
    S,
    D,
    F,
    Z,
    X,
    C,
    V,
    ArrowUp,
    ArrowDown,
    ArrowLeft,
    ArrowRight,
    Space,
    Other,
}

/// A keyboard layout.
#[derive(Debug, Clone, Copy, PartialEq, Eq, Structural)]
pub enum KeyMapping {
    Qwerty,
    Azerty,
}

impl Default for KeyMapping {
    fn default() -> (mapping: Self)
        ensures
            mapping == KeyMapping::Qwerty,
    {
        KeyMapping::Qwerty
    }
}

/// The name of a layout.
pub open spec fn mapping_name(mapping: KeyMapping) -> Seq<char> {
    match mapping {
        KeyMapping::Qwerty => "Qwerty"@,
        KeyMapping::Azerty => "Azerty"@,
    }
}

impl KeyMapping {
    /// The name of the layout.
    pub fn name(&self) -> (name: &'static str)
        ensures
            name@ == mapping_name(*self),
    {
        match self {
            KeyMapping::Qwerty => "Qwerty",
            KeyMapping::Azerty => "Azerty",
        }
    }
}

/// The layouts, in the order in which they are offered.
pub fn key_mappings() -> (mappings: [KeyMapping; 2])
    ensures
        mappings@ == seq![KeyMapping::Qwerty, KeyMapping::Azerty],
{
    let mappings = [KeyMapping::Qwerty, KeyMapping::Azerty];
    assert(mappings@ =~= seq![KeyMapping::Qwerty, KeyMapping::Azerty]);
    mappings
}

/// The host keys that press CHIP-8 keys, in the order in which they are
/// polled.
pub open spec fn keyboard_order() -> Seq<InputKey> {
    seq![
        InputKey::Num1, InputKey::Num2, InputKey::Num3, InputKey::Num4,
        InputKey::Q, InputKey::W, InputKey::E, InputKey::R,
        InputKey::A, InputKey::S, InputKey::D, InputKey::F,
        InputKey::Z, InputKey::X, InputKey::C, InputKey::V,
        InputKey::ArrowUp, InputKey::ArrowDown, InputKey::ArrowLeft, InputKey::ArrowRight,
        InputKey::Space,
    ]
}

/// The keys on the keyboard that correspond to the Chip-8 keys
pub fn keyboard() -> (keys: [InputKey; 21])
    ensures
        keys@ == keyboard_order(),
{
    let keys = [
        InputKey::Num1, InputKey::Num2, InputKey::Num3, InputKey::Num4,
        InputKey::Q, InputKey::W, InputKey::E, InputKey::R,
        InputKey::A, InputKey::S, InputKey::D, InputKey::F,
        InputKey::Z, InputKey::X, InputKey::C, InputKey::V,
        InputKey::ArrowUp, InputKey::ArrowDown, InputKey::ArrowLeft, InputKey::ArrowRight,
        InputKey::Space,
    ];
    assert(keys@ =~= keyboard_order());
    keys
}

/// The CHIP-8 key that a host key presses on the QWERTY layout.
pub open spec fn qwerty_key(key: InputKey) -> Option<KeypadKey> {
    match key {
        InputKey::Num1 => Some(KeypadKey::Num1),
        InputKey::Num2 => Some(KeypadKey::Num2),
        InputKey::Num3 => Some(KeypadKey::Num3),
        InputKey::Num4 => Some(KeypadKey::C),
        InputKey::Q => Some(KeypadKey::Num4),
        InputKey::W | InputKey::ArrowUp => Some(KeypadKey::Num5),
        InputKey::E | InputKey::Space => Some(KeypadKey::Num6),
        InputKey::R => Some(KeypadKey::D),
        InputKey::A | InputKey::ArrowLeft => Some(KeypadKey::Num7),
        InputKey::S | InputKey::ArrowDown => Some(KeypadKey::Num8),
        InputKey::D | InputKey::ArrowRight => Some(KeypadKey::Num9),
        InputKey::F => Some(KeypadKey::E),
        InputKey::Z => Some(KeypadKey::A),
        InputKey::X => Some(KeypadKey::Num0),
        InputKey::C => Some(KeypadKey::B),
        InputKey::V => Some(KeypadKey::F),
        InputKey::Other => None,
    }
}

/// The CHIP-8 key that a host key presses on the AZERTY layout.
pub open spec fn azerty_key(key: InputKey) -> Option<KeypadKey> {
    match key {
        InputKey::Num1 => Some(KeypadKey::Num1),
        InputKey::Num2 => Some(KeypadKey::Num2),
        InputKey::Num3 => Some(KeypadKey::Num3),
        InputKey::Num4 => Some(KeypadKey::C),
        InputKey::A => Some(KeypadKey::Num4),
        InputKey::Z | InputKey::ArrowUp => Some(KeypadKey::Num5),
        InputKey::E | InputKey::Space => Some(KeypadKey::Num6),
        InputKey::R => Some(KeypadKey::D),
        InputKey::Q | InputKey::ArrowLeft => Some(KeypadKey::Num7),
        InputKey::S | InputKey::ArrowDown => Some(KeypadKey::Num8),
        InputKey::D | InputKey::ArrowRight => Some(KeypadKey::Num9),
        InputKey::F => Some(KeypadKey::E),
        InputKey::W => Some(KeypadKey::A),
        InputKey::X => Some(KeypadKey::Num0),
        InputKey::C => Some(KeypadKey::B),
        InputKey::V => Some(KeypadKey::F),
        InputKey::Other => None,
    }
}

/// Whether a host key is one of the stand-ins: the arrows and the space bar.
pub open spec fn extra_key(key: InputKey) -> bool {
    match key {
        InputKey::ArrowUp | InputKey::ArrowDown | InputKey::ArrowLeft | InputKey::ArrowRight | InputKey::Space => true,
        _ => false,
    }
}

/// The QWERTY letter key that a stand-in replaces.
pub open spec fn regular_key(key: InputKey) -> Option<InputKey> {
    match key {
        InputKey::ArrowUp => Some(InputKey::W),
        InputKey::ArrowDown => Some(InputKey::S),
        InputKey::ArrowLeft => Some(InputKey::A),
        InputKey::ArrowRight => Some(InputKey::D),
        InputKey::Space => Some(InputKey::E),
        _ => None,
    }
}

/// The CHIP-8 key that a host key presses on a layout.
pub open spec fn layout_key(layout: KeyMapping, key: InputKey) -> Option<KeypadKey> {
    match layout {
        KeyMapping::Qwerty => qwerty_key(key),
        KeyMapping::Azerty => azerty_key(key),
    }
}

/// Whether a polled host key counts as held: it is down, or it is a
/// stand-in and the letter it replaces is down.
pub open spec fn held(down: Seq<InputKey>, key: InputKey) -> bool {
    down.contains(key) || (regular_key(key) matches Some(r) && down.contains(r))
}

/// The key states after polling the first `n` host keys in order: each
/// polled key sets the state of its CHIP-8 key to whether it is held (a
/// later key overrides an earlier one that presses the same CHIP-8 key).
pub open spec fn polled(layout: KeyMapping, down: Seq<InputKey>, state: Seq<u8>, n: nat) -> Seq<u8>
    decreases n,
{
    if n == 0 {
        state
    } else {
        let before = polled(layout, down, state, (n - 1) as nat);
        let key = keyboard_order()[n - 1];
        match layout_key(layout, key) {
            Some(pad) => before.update(key_value(pad) as int, if held(down, key) { 1u8 } else { 0u8 }),
            None => before,
        }
    }
}

/// Whether `key` is among the keys that are down.
fn is_down(down: &Vec<InputKey>, key: &InputKey) -> (d: bool)
    ensures
        d == down@.contains(*key),
{
    let mut i: usize = 0;
    while i < down.len()
        invariant
            i <= down@.len(),
            forall|j: int| 0 <= j < i ==> down@[j] != *key,
        decreases down@.len() - i,
    {
        if down[i] == *key {
            return true;
        }
        i += 1;
    }
    false
}

/// The layout in use.
#[derive(Debug, Clone, Copy, PartialEq, Eq, Structural)]
pub struct KeyboardMapping {
    mapping: KeyMapping,
}

impl Default for KeyboardMapping {
    fn default() -> (m: Self)
        ensures
            m.layout() == KeyMapping::Qwerty,
    {
        KeyboardMapping { mapping: KeyMapping::Qwerty }
    }
}

impl KeyboardMapping {
    /// The layout in use.
    pub closed spec fn layout(&self) -> KeyMapping {
        self.mapping
    }

    /// Get the key mapping for the current input mapping
    pub fn key_from_mapping(&self, key: &InputKey) -> (keypad_key: Option<KeypadKey>)
        ensures
            keypad_key == match self.layout() {
                KeyMapping::Qwerty => qwerty_key(*key),
                KeyMapping::Azerty => azerty_key(*key),
            },
    {
        match self.mapping {
            KeyMapping::Qwerty => self.key_mapping_qwerty(key),
            KeyMapping::Azerty => self.key_mapping_azerty(key),
        }
    }

    /// Choose the layout.
    pub fn set_key_mapping(&mut self, mapping: KeyMapping)
        ensures
            final(self).layout() == mapping,
    {
        self.mapping = mapping;
    }

    /// The layout in use.
    pub fn key_mapping(&self) -> (mapping: KeyMapping)
        ensures
            mapping == self.layout(),
    {
        self.mapping
    }

    /// The layout in use, to change in place.
    pub fn key_mapping_mut(&mut self) -> (mapping: &mut KeyMapping)
        ensures
            *mapping == old(self).layout(),
            final(self).layout() == *final(mapping),
    {
        &mut self.mapping
    }

    /// The name of the layout in use.
    pub fn key_mapping_name(&self) -> (name: String)
        ensures
            name@ == mapping_name(self.layout()),
    {
        self.mapping.name().to_owned()
    }

    /// Whether a host key is a stand-in (an arrow or the space bar).
    pub fn is_extra_key(&self, key: &InputKey) -> (extra: bool)
        ensures
            extra == extra_key(*key),
    {
        match key {
            InputKey::ArrowUp | InputKey::ArrowDown | InputKey::ArrowLeft | InputKey::ArrowRight | InputKey::Space => true,
            _ => false,
        }
    }

    /// The letter key that a stand-in replaces, if `key` is one.
    pub fn regular_key_from_extra_key(&self, key: &InputKey) -> (regular: Option<InputKey>)
        ensures
            regular == regular_key(*key),
    {
        match key {
            InputKey::ArrowUp => Some(InputKey::W),
            InputKey::ArrowDown => Some(InputKey::S),
            InputKey::ArrowLeft => Some(InputKey::A),
            InputKey::ArrowRight => Some(InputKey::D),
            InputKey::Space => Some(InputKey::E),
            _ => None,
        }
    }

    /// Applies the host keyboard to the keypad: each polled host key, in
    /// order, sets its CHIP-8 key to whether it is held, where `down` lists
    /// the host keys that are down (see `polled`).
    pub fn update_keypad(&self, down: &Vec<InputKey>, keypad: &mut Keypad)
        ensures
            final(keypad).state() == polled(self.layout(), down@, old(keypad).state(), keyboard_order().len()),
    {
        let keys = keyboard();
        let mut i: usize = 0;
        while i < 21
            invariant
                i <= 21,
                keys@ == keyboard_order(),
                keypad.state() == polled(self.layout(), down@, old(keypad).state(), i as nat),
            decreases 21 - i,
        {
            let key = keys[i];
            match self.key_from_mapping(&key) {
                Some(pad) => {
                    let held = match self.regular_key_from_extra_key(&key) {
                        Some(regular) => is_down(down, &regular) || is_down(down, &key),
                        None => is_down(down, &key),
                    };
                    keypad.set_key(&pad, held);
                },
                None => {},
            }
            i += 1;
        }
    }

    fn key_mapping_qwerty(&self, key: &InputKey) -> (k: Option<KeypadKey>)
        ensures
            k == qwerty_key(*key),
    {
        let key_match = match key {
            InputKey::Num1 => KeypadKey::Num1,
            InputKey::Num2 => KeypadKey::Num2,
            InputKey::Num3 => KeypadKey::Num3,
            InputKey::Num4 => KeypadKey::C,
            InputKey::Q => KeypadKey::Num4,
            InputKey::W | InputKey::ArrowUp => KeypadKey::Num5,
            InputKey::E | InputKey::Space => KeypadKey::Num6,
            InputKey::R => KeypadKey::D,
            InputKey::A | InputKey::ArrowLeft => KeypadKey::Num7,
            InputKey::S | InputKey::ArrowDown => KeypadKey::Num8,
            InputKey::D | InputKey::ArrowRight => KeypadKey::Num9,
            InputKey::F => KeypadKey::E,
            InputKey::Z => KeypadKey::A,
            InputKey::X => KeypadKey::Num0,
            InputKey::C => KeypadKey::B,
            InputKey::V => KeypadKey::F,
            _ => return None,
        };
        Some(key_match)
    }

    fn key_mapping_azerty(&self, key: &InputKey) -> (k: Option<KeypadKey>)
        ensures
            k == azerty_key(*key),
    {
        let key_match = match key {
            InputKey::Num1 => KeypadKey::Num1,
            InputKey::Num2 => KeypadKey::Num2,
            InputKey::Num3 => KeypadKey::Num3,
            InputKey::Num4 => KeypadKey::C,
            InputKey::A => KeypadKey::Num4,
            InputKey::Z | InputKey::ArrowUp => KeypadKey::Num5,
            InputKey::E | InputKey::Space => KeypadKey::Num6,
            InputKey::R => KeypadKey::D,
            InputKey::Q | InputKey::ArrowLeft => KeypadKey::Num7,
            InputKey::S | InputKey::ArrowDown => KeypadKey::Num8,
            InputKey::D | InputKey::ArrowRight => KeypadKey::Num9,
            InputKey::F => KeypadKey::E,
            InputKey::W => KeypadKey::A,
            InputKey::X => KeypadKey::Num0,
            InputKey::C => KeypadKey::B,
            InputKey::V => KeypadKey::F,
            _ => return None,
        };
        Some(key_match)
    }
}

} // verus!
