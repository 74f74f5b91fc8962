use c8::fonts::{font_data, small_font_len, FontName, FontSize};
use c8::memory::{Memory, MAX_MEMORY};

#[test]
fn test_default_memory() {
    let memory = Memory::default();
    let font_data = font_data(FontName::CHIP8).small_data;

    // Check that the memory is the correct size
    assert_eq!(memory.data.len(), MAX_MEMORY);

    // Check that the font data is loaded
    for (i, &byte) in font_data.iter().enumerate() {
        assert_eq!(memory.data[i], byte);
    }

    // Check that the rest of the memory is zero
    for i in font_data.len()..MAX_MEMORY {
        assert_eq!(memory.data[i], 0);
    }
}

#[test]
fn memory_test_load_rom() {
    let mut memory = Memory::default();
    memory.load_rom(vec![0x00, 0xE0, 0x00, 0xEE]);

    assert_eq!(memory.data[0x200], 0x00);
    assert_eq!(memory.data[0x201], 0xE0);
    assert_eq!(memory.data[0x202], 0x00);
    assert_eq!(memory.data[0x203], 0xEE);
}

#[test]
fn load_rom_touches_only_the_program_area() {
    let mut memory = Memory::default();
    let before = memory.data.clone();
    memory.load_rom(vec![1, 2, 3]);
    assert_eq!(&memory.data[0x200..0x203], &[1, 2, 3]);
    assert_eq!(&memory.data[..0x200], &before[..0x200]);
    assert_eq!(&memory.data[0x203..], &before[0x203..]);
}

#[test]
fn empty_rom_leaves_memory_unchanged() {
    let mut memory = Memory::default();
    let before = memory.data.clone();
    memory.load_rom(Vec::new());
    assert_eq!(memory.data, before);
}

#[test]
fn rom_may_fill_memory_to_the_end() {
    let mut memory = Memory::default();
    memory.load_rom(vec![0xAB; MAX_MEMORY - 0x200]);
    assert_eq!(memory.data.len(), MAX_MEMORY);
    assert_eq!(memory.data[MAX_MEMORY - 1], 0xAB);
    assert_eq!(memory.data[0x1FF], 0);
}

#[test]
fn load_small_font_replaces_the_system_font() {
    let mut memory = Memory::default();
    memory.load_font_name(FontName::VIP, FontSize::Small);
    assert_eq!(memory.system_font, FontName::VIP);
    let vip = font_data(FontName::VIP).small_data;
    assert_eq!(&memory.data[..vip.len()], &vip[..]);
    assert_eq!(memory.data[5], 0x60);
}

#[test]
fn load_large_font_needs_the_extension() {
    let mut memory = Memory::default();
    let before = memory.data.clone();
    memory.load_font_name(FontName::SUPERCHIP, FontSize::Large);
    assert_eq!(memory.data, before);
    assert_eq!(memory.system_font, FontName::CHIP8);

    memory.enable_xo = true;
    memory.load_font_name(FontName::SUPERCHIP, FontSize::Large);
    let large = font_data(FontName::SUPERCHIP).large_data;
    let start = small_font_len(FontName::CHIP8);
    assert_eq!(start, 80);
    assert_eq!(&memory.data[start..start + large.len()], &large[..]);
    assert_eq!(&memory.data[..start], &before[..start]);
}

#[test]
fn font_table_shape() {
    assert_eq!(font_data(FontName::CHIP8).small_data.len(), 80);
    assert_eq!(font_data(FontName::CHIP8).large_data.len(), 160);
    assert_eq!(font_data(FontName::VIP).large_data.len(), 0);
    assert_eq!(small_font_len(FontName::SUPERCHIP), 0);
    assert_eq!(FontName::CHIP8.number(), 0);
    assert_eq!(FontName::SUPERCHIP.number(), 5);
    assert_eq!(FontName::DREAM6800.title(), "DREAM 6800");
    assert_eq!(font_data(FontName::FISHIE).name, FontName::FISHIE);
}
