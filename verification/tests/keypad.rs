use c8::keyboard::{get_key_index, KeyboardKey};
use c8::keypad::{keypad_keys, Keypad, KeypadKey};

#[test]
fn test_getset_key() {
    let mut keypad = Keypad::default();

    // Test key down
    keypad.set_key(&KeypadKey::Num1, true);
    assert_eq!(keypad.is_key_pressed(&KeypadKey::Num1), true);

    // Test key up
    keypad.set_key(&KeypadKey::Num1, false);
    assert_eq!(keypad.is_key_pressed(&KeypadKey::Num1), false);
}

#[test]
fn test_key_index() {
    assert_eq!(KeypadKey::Num1.key_index(), 0x1);
    assert_eq!(KeypadKey::Num2.key_index(), 0x2);
    assert_eq!(KeypadKey::Num3.key_index(), 0x3);
    assert_eq!(KeypadKey::C.key_index(), 0xC);
    assert_eq!(KeypadKey::Num4.key_index(), 0x4);
    assert_eq!(KeypadKey::Num5.key_index(), 0x5);
    assert_eq!(KeypadKey::Num6.key_index(), 0x6);
    assert_eq!(KeypadKey::D.key_index(), 0xD);
    assert_eq!(KeypadKey::Num7.key_index(), 0x7);
    assert_eq!(KeypadKey::Num8.key_index(), 0x8);
    assert_eq!(KeypadKey::Num9.key_index(), 0x9);
    assert_eq!(KeypadKey::E.key_index(), 0xE);
    assert_eq!(KeypadKey::A.key_index(), 0xA);
    assert_eq!(KeypadKey::Num0.key_index(), 0x0);
    assert_eq!(KeypadKey::B.key_index(), 0xB);
    assert_eq!(KeypadKey::F.key_index(), 0xF);
}

#[test]
fn test_from_guard() {
    assert_eq!(KeypadKey::from(0) == KeypadKey::Num0, true);
    assert_eq!(KeypadKey::from(66) == KeypadKey::F, true);
}

#[test]
fn from_index_round_trips_every_key() {
    for key in keypad_keys().iter() {
        assert_eq!(KeypadKey::from(key.key_index()), *key);
    }
    for value in 0..16usize {
        assert_eq!(KeypadKey::from(value).key_index(), value);
    }
    assert_eq!(KeypadKey::from(15), KeypadKey::F);
    assert_eq!(KeypadKey::from(16), KeypadKey::F);
    assert_eq!(KeypadKey::from(usize::MAX), KeypadKey::F);
}

#[test]
fn keypad_keys_are_in_layout_order_and_distinct() {
    let keys = keypad_keys();
    let values: Vec<usize> = keys.iter().map(|k| k.key_index()).collect();
    assert_eq!(values, vec![0x1, 0x2, 0x3, 0xC, 0x4, 0x5, 0x6, 0xD, 0x7, 0x8, 0x9, 0xE, 0xA, 0x0, 0xB, 0xF]);
    let mut sorted = values.clone();
    sorted.sort();
    assert_eq!(sorted, (0..16).collect::<Vec<usize>>());
}

#[test]
fn key_names_are_hex_digits() {
    assert_eq!(KeypadKey::Num0.name(), "0");
    assert_eq!(KeypadKey::Num7.name(), "7");
    assert_eq!(KeypadKey::A.name(), "A");
    assert_eq!(KeypadKey::F.name(), "F");
}

#[test]
fn key_reads_back_the_last_write() {
    let mut keypad = Keypad::default();
    assert_eq!(keypad.0, [0u8; 16]);
    keypad.set_key(&KeypadKey::B, true);
    assert_eq!(keypad.key(&KeypadKey::B), 1);
    assert_eq!(keypad.0[0xB], 1);
    assert_eq!(keypad.key(&KeypadKey::C), 0);
    keypad.set_key(&KeypadKey::B, true);
    assert_eq!(keypad.key(&KeypadKey::B), 1);
    keypad.set_key(&KeypadKey::B, false);
    assert_eq!(keypad.key(&KeypadKey::B), 0);
    assert!(!keypad.is_key_pressed(&KeypadKey::B));
}

#[test]
fn keyboard_key_indices() {
    assert_eq!(get_key_index(&KeyboardKey::Num0), 0);
    assert_eq!(get_key_index(&KeyboardKey::Num1), 1);
    assert_eq!(get_key_index(&KeyboardKey::C), 0xC);
    assert_eq!(get_key_index(&KeyboardKey::Num9), 9);
    assert_eq!(get_key_index(&KeyboardKey::F), 0xF);
}
