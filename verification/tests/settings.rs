use c8::input::{key_mappings, keyboard, InputKey, KeyMapping, KeyboardMapping};
use c8::keypad::{keypad_keys, Keypad, KeypadKey};
use c8::locale::{language_list, Languages, LocaleText};
use c8::palette::{palette_pixel_colors, palettes, Color, ColorLayer, Palette, PixelColors};
use c8::quirks::{compatibility_profiles, CompatibilityDevice, CompatibilityProfile, Quirks};
use c8::roms::ROM;

#[test]
fn profiles_and_their_keys() {
    let profiles = compatibility_profiles();
    assert_eq!(profiles.len(), 3);
    assert_eq!(profiles[0].device, CompatibilityDevice::Default);
    assert_eq!(profiles[0].quirks, Quirks::default());
    assert_eq!(profiles[1].get_name_key(), "chip8");
    assert!(profiles[1].quirks.vf_zero && profiles[1].quirks.v_blank && profiles[1].quirks.clip_sprites);
    assert!(!profiles[1].quirks.i_incremented && !profiles[1].quirks.jump_bits);
    assert_eq!(profiles[2].get_name_key(), "super_chip");
    assert!(profiles[2].quirks.i_incremented && profiles[2].quirks.clip_sprites && profiles[2].quirks.jump_bits);
    assert_eq!(CompatibilityProfile::default().get_name_key(), "default");
}

#[test]
fn profile_found_from_its_quirks() {
    for profile in compatibility_profiles().iter() {
        assert_eq!(CompatibilityProfile::find_profile_name_key(profile.quirks), profile.get_name_key());
    }
    let mut custom = Quirks::default();
    custom.vx_shifted_directly = true;
    assert_eq!(CompatibilityProfile::find_profile_name_key(custom), "custom");
}

#[test]
fn palette_colors() {
    let default = PixelColors::default();
    assert_eq!(default.palette, Palette::Default);
    assert_eq!(default.background_color(), &Color::from_rgb(0, 0, 0));
    assert_eq!(default.foreground1_color(), &Color::from_rgb(255, 255, 255));
    assert_eq!(default.foreground2_color(), &Color::from_rgb(0x90, 0xEE, 0x90));
    assert_eq!(default.blended_color(), &Color::from_rgb(0, 0x64, 0));
    assert_eq!(Color::from_rgb(1, 2, 3), Color { r: 1, g: 2, b: 3, a: 255 });

    let octo = PixelColors::from(Palette::Octo);
    assert_eq!(octo, palette_pixel_colors(Palette::Octo));
    assert_eq!(octo.background_color(), &Color::from_rgb(153, 102, 0));
    assert_eq!(octo.name_key(), "octo");
    let octo_all = octo.all_colors();
    assert_eq!(octo_all[1], Color::from_rgb(0xFF, 0xCC, 0x00));
    assert_eq!(octo_all[2], Color::from_rgb(0xFF, 0x66, 0x00));
    assert_eq!(octo_all[3], Color::from_rgb(0x66, 0x22, 0x00));
    assert_eq!(octo_all[4], Color::from_rgb(0xFF, 0xAA, 0x00));
    assert_eq!(octo_all[5], Color::from_rgb(0, 0, 0));
    assert_eq!(Palette::LCD.name_key(), "lcd");
    assert_eq!(Palette::Grey.name_key(), "grey");

    let all = palettes();
    assert_eq!(all[0], PixelColors::default());
    assert_eq!(all[2].palette, Palette::LCD);
    assert_eq!(all[3].foreground1_color(), &Color::from_rgb(0, 0, 0));
}

#[test]
fn pixel_color_by_layer() {
    let colors = palette_pixel_colors(Palette::LCD);
    assert_eq!(ColorLayer::from(0), ColorLayer::Background);
    assert_eq!(ColorLayer::from(1), ColorLayer::Foreground2);
    assert_eq!(ColorLayer::from(2), ColorLayer::Foreground1);
    assert_eq!(ColorLayer::from(3), ColorLayer::Blended);
    assert_eq!(ColorLayer::from(200), ColorLayer::Background);
    assert_eq!(colors.pixel_color(ColorLayer::Background), colors.background_color());
    assert_eq!(colors.pixel_color(ColorLayer::Foreground1), &Color::from_rgb(61, 128, 38));
    assert_eq!(colors.pixel_color(ColorLayer::Foreground2), &Color::from_rgb(174, 204, 71));
    assert_eq!(colors.pixel_color(ColorLayer::Blended), &Color::from_rgb(0, 19, 26));
}

#[test]
fn on_and_off_colors() {
    let mut colors = PixelColors::default();
    assert_eq!(colors.on_color(), colors.foreground1_color());
    assert_eq!(colors.off_color(), colors.background_color());
    colors.set_on_color(Color::from_rgb(9, 8, 7));
    colors.set_off_color(Color::from_rgb(1, 1, 1));
    assert_eq!(colors.foreground1_color(), &Color::from_rgb(9, 8, 7));
    assert_eq!(colors.background_color(), &Color::from_rgb(1, 1, 1));
    colors.on_color_mut().r = 100;
    colors.off_color_mut().g = 50;
    assert_eq!(colors.on_color().r, 100);
    assert_eq!(colors.off_color().g, 50);
    let all = colors.all_colors();
    assert_eq!(all[0], *colors.background_color());
    assert_eq!(all[1], *colors.foreground1_color());
}

#[test]
fn qwerty_and_azerty_layouts() {
    let mut mapping = KeyboardMapping::default();
    assert_eq!(mapping.key_mapping(), KeyMapping::Qwerty);
    assert_eq!(mapping.key_mapping_name(), "Qwerty".to_string());
    assert_eq!(mapping.key_from_mapping(&InputKey::Q), Some(KeypadKey::Num4));
    assert_eq!(mapping.key_from_mapping(&InputKey::Z), Some(KeypadKey::A));
    assert_eq!(mapping.key_from_mapping(&InputKey::ArrowUp), Some(KeypadKey::Num5));
    assert_eq!(mapping.key_from_mapping(&InputKey::Other), None);

    mapping.set_key_mapping(KeyMapping::Azerty);
    assert_eq!(mapping.key_mapping_name(), "Azerty".to_string());
    assert_eq!(mapping.key_from_mapping(&InputKey::A), Some(KeypadKey::Num4));
    assert_eq!(mapping.key_from_mapping(&InputKey::W), Some(KeypadKey::A));
    assert_eq!(mapping.key_from_mapping(&InputKey::Q), Some(KeypadKey::Num7));

    *mapping.key_mapping_mut() = KeyMapping::Qwerty;
    assert_eq!(mapping.key_mapping(), KeyMapping::Qwerty);
    assert_eq!(key_mappings(), [KeyMapping::Qwerty, KeyMapping::Azerty]);
    assert_eq!(KeyMapping::default(), KeyMapping::Qwerty);
    assert_eq!(KeyMapping::Azerty.name(), "Azerty");
}

#[test]
fn qwerty_grid_is_the_keypad_grid() {
    let mapping = KeyboardMapping::default();
    let keys = keyboard();
    let pads = keypad_keys();
    for i in 0..16 {
        assert_eq!(mapping.key_from_mapping(&keys[i]), Some(pads[i]));
    }
}

#[test]
fn every_polled_key_presses_a_chip8_key() {
    let mapping = KeyboardMapping::default();
    let keys = keyboard();
    assert_eq!(keys.len(), 21);
    for key in keys.iter() {
        assert!(mapping.key_from_mapping(key).is_some());
    }
}

#[test]
fn extra_keys_stand_in_for_letters() {
    let mapping = KeyboardMapping::default();
    assert!(mapping.is_extra_key(&InputKey::Space));
    assert!(!mapping.is_extra_key(&InputKey::W));
    assert_eq!(mapping.regular_key_from_extra_key(&InputKey::ArrowLeft), Some(InputKey::A));
    assert_eq!(mapping.regular_key_from_extra_key(&InputKey::Space), Some(InputKey::E));
    assert_eq!(mapping.regular_key_from_extra_key(&InputKey::W), None);
    for key in keyboard().iter() {
        if let Some(regular) = mapping.regular_key_from_extra_key(key) {
            assert_eq!(mapping.key_from_mapping(key), mapping.key_from_mapping(&regular));
        }
    }
}

#[test]
fn languages() {
    assert_eq!(language_list(), [Languages::English]);
    assert_eq!(Languages::default().as_str(), "English");
    assert_eq!(Languages::English.tag(), "en-US");
    let mut text = LocaleText::default();
    assert_eq!(text.language(), Languages::English);
    text.set_language(Languages::English);
    *text.language_mut() = Languages::English;
    assert_eq!(text.language(), Languages::English);
}

#[test]
fn rom_names_drop_the_extension() {
    let rom = ROM::new("Pong.ch8", &[0x12, 0x00]);
    assert_eq!(rom.get_name(), "Pong");
    assert_eq!(rom.get_data(), &[0x12, 0x00]);
    assert_eq!(ROM::new("readme.txt", &[]).get_name(), "readme.txt");
    assert_eq!(ROM::new(".ch8", &[]).get_name(), "");
    assert_eq!(ROM::new("a.ch8.ch8", &[]).get_name(), "a.ch8");
}

#[test]
fn keyboard_state_reaches_the_keypad() {
    let mapping = KeyboardMapping::default();
    let mut keypad = Keypad::default();
    mapping.update_keypad(&vec![InputKey::W, InputKey::Num4], &mut keypad);
    assert!(keypad.is_key_pressed(&KeypadKey::Num5));
    assert!(keypad.is_key_pressed(&KeypadKey::C));
    assert_eq!(keypad.0.iter().filter(|&&s| s == 1).count(), 2);

    mapping.update_keypad(&vec![InputKey::ArrowUp], &mut keypad);
    assert!(keypad.is_key_pressed(&KeypadKey::Num5));
    assert!(!keypad.is_key_pressed(&KeypadKey::C));

    mapping.update_keypad(&vec![InputKey::Other], &mut keypad);
    assert_eq!(keypad.0, [0u8; 16]);
}

#[test]
fn azerty_stand_ins_follow_qwerty_letters() {
    let mut mapping = KeyboardMapping::default();
    mapping.set_key_mapping(KeyMapping::Azerty);
    let mut keypad = Keypad::default();
    mapping.update_keypad(&vec![InputKey::A], &mut keypad);
    assert!(keypad.is_key_pressed(&KeypadKey::Num4));
    // The up arrow, polled after Z, sets the key that Z presses from the
    // state of W and of the arrow itself.
    mapping.update_keypad(&vec![InputKey::Z], &mut keypad);
    assert!(!keypad.is_key_pressed(&KeypadKey::Num5));
    mapping.update_keypad(&vec![InputKey::W], &mut keypad);
    assert!(keypad.is_key_pressed(&KeypadKey::Num5));
    assert!(keypad.is_key_pressed(&KeypadKey::A));
}
