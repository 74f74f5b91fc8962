use c8::cpu::{Register, CPU};
use c8::display::{Display, DisplayResolution};
use c8::keypad::{Keypad, KeypadKey};
use c8::memory::Memory;
use c8::message::DeviceMessage;
use c8::quirks::Quirks;

struct Rig {
    cpu: CPU,
    memory: Memory,
    display: Display,
    stack: Vec<u16>,
    quirks: Quirks,
    keypad: Keypad,
}

impl Rig {
    fn new(program: &[u8]) -> Rig {
        let mut memory = Memory::default();
        memory.load_rom(program.to_vec());
        Rig {
            cpu: CPU::default(),
            memory,
            display: Display::default(),
            stack: Vec::new(),
            quirks: Quirks::default(),
            keypad: Keypad::default(),
        }
    }

    fn step_random(&mut self, random: u8) -> Vec<DeviceMessage> {
        assert!(self.cpu.can_step(&self.memory, &self.display, &self.stack, &self.quirks, &self.keypad));
        self.cpu.step_with_random(
            &mut self.memory,
            &mut self.display,
            &mut self.stack,
            &self.quirks,
            &self.keypad,
            random,
        )
    }

    fn step(&mut self) -> Vec<DeviceMessage> {
        self.step_random(0)
    }

    fn steps(&mut self, n: usize) -> Vec<DeviceMessage> {
        let mut all = Vec::new();
        for _ in 0..n {
            all.extend(self.step());
        }
        all
    }

    fn v(&self, i: usize) -> u8 {
        self.cpu.get_registers()[i]
    }
}

#[test]
fn register_indices() {
    assert_eq!(Register::V0.index(), 0);
    assert_eq!(Register::V9.index(), 9);
    assert_eq!(Register::VF.index(), 15);
}

#[test]
fn reset_state() {
    let cpu = CPU::default();
    assert_eq!(cpu.get_program_counter(), 0x200);
    assert_eq!(cpu.get_index_register(), 0);
    assert_eq!(cpu.get_registers(), &vec![0u8; 16]);
    assert_eq!(cpu.delay_timer(), 0);
    assert_eq!(cpu.sound_timer(), 0);
    assert!(cpu.get_audio_buffer().is_empty());
    assert_eq!(cpu.get_buffer_pitch(), 64);
}

#[test]
fn set_and_add_wrap() {
    let mut rig = Rig::new(&[0x60, 0xFF, 0x70, 0x02, 0x6A, 0x12]);
    rig.steps(3);
    assert_eq!(rig.v(0), 0x01);
    assert_eq!(rig.v(0xA), 0x12);
    assert_eq!(rig.v(0xF), 0);
    assert_eq!(rig.cpu.get_program_counter(), 0x206);
}

#[test]
fn add_registers_sets_carry() {
    let mut rig = Rig::new(&[0x60, 0xFF, 0x61, 0x02, 0x80, 0x14, 0x62, 0x03, 0x63, 0x04, 0x82, 0x34]);
    rig.steps(3);
    assert_eq!(rig.v(0), 0x01);
    assert_eq!(rig.v(0xF), 1);
    rig.steps(3);
    assert_eq!(rig.v(2), 7);
    assert_eq!(rig.v(0xF), 0);
}

#[test]
fn subtract_sets_not_borrow() {
    let mut rig = Rig::new(&[0x60, 0x01, 0x61, 0x02, 0x80, 0x15, 0x62, 0x05, 0x63, 0x03, 0x82, 0x35]);
    rig.steps(3);
    assert_eq!(rig.v(0), 0xFF);
    assert_eq!(rig.v(0xF), 0);
    rig.steps(3);
    assert_eq!(rig.v(2), 2);
    assert_eq!(rig.v(0xF), 1);
}

#[test]
fn reverse_subtract() {
    let mut rig = Rig::new(&[0x60, 0x03, 0x61, 0x05, 0x80, 0x17]);
    rig.steps(3);
    assert_eq!(rig.v(0), 2);
    assert_eq!(rig.v(0xF), 1);
}

#[test]
fn logic_operations_and_vf_quirk() {
    let program = [0x60, 0x0C, 0x61, 0x0A, 0x6F, 0x07, 0x80, 0x11, 0x80, 0x12, 0x80, 0x13];
    let mut rig = Rig::new(&program);
    rig.steps(4);
    assert_eq!(rig.v(0), 0x0E);
    assert_eq!(rig.v(0xF), 7);
    rig.step();
    assert_eq!(rig.v(0), 0x0A);
    rig.step();
    assert_eq!(rig.v(0), 0x00);

    let mut rig = Rig::new(&program);
    rig.quirks.vf_zero = true;
    rig.steps(4);
    assert_eq!(rig.v(0), 0x0E);
    assert_eq!(rig.v(0xF), 0);
}

#[test]
fn shifts_use_vy_unless_quirk() {
    let program = [0x60, 0x10, 0x61, 0x05, 0x80, 0x16, 0x62, 0x81, 0x83, 0x2E];
    let mut rig = Rig::new(&program);
    rig.steps(3);
    assert_eq!(rig.v(0), 0x02);
    assert_eq!(rig.v(0xF), 1);
    rig.steps(2);
    assert_eq!(rig.v(3), 0x02);
    assert_eq!(rig.v(0xF), 1);

    let mut rig = Rig::new(&program);
    rig.quirks.vx_shifted_directly = true;
    rig.steps(3);
    assert_eq!(rig.v(0), 0x08);
    assert_eq!(rig.v(0xF), 0);
}

#[test]
fn bcd_digits() {
    let mut rig = Rig::new(&[0x60, 234, 0xA3, 0x00, 0xF0, 0x33]);
    rig.steps(3);
    assert_eq!(&rig.memory.data[0x300..0x303], &[2, 3, 4]);
    assert_eq!(rig.cpu.get_index_register(), 0x300);
}

#[test]
fn store_and_load_registers() {
    let program = [
        0x60, 0x11, 0x61, 0x22, 0x62, 0x33, 0xA3, 0x00, 0xF2, 0x55, 0x60, 0x00, 0x61, 0x00, 0x62, 0x00,
        0xF2, 0x65,
    ];
    let mut rig = Rig::new(&program);
    rig.steps(5);
    assert_eq!(&rig.memory.data[0x300..0x304], &[0x11, 0x22, 0x33, 0x00]);
    rig.steps(4);
    assert_eq!(rig.v(0), 0x11);
    assert_eq!(rig.v(1), 0x22);
    assert_eq!(rig.v(2), 0x33);
    assert_eq!(rig.cpu.get_index_register(), 0x300);

    let mut rig = Rig::new(&program);
    rig.quirks.i_incremented = true;
    rig.steps(5);
    assert_eq!(rig.cpu.get_index_register(), 0x301);
}

#[test]
fn call_and_return() {
    let mut rig = Rig::new(&[0x22, 0x06, 0x60, 0x01, 0x00, 0x00, 0x61, 0x07, 0x00, 0xEE]);
    rig.step();
    assert_eq!(rig.cpu.get_program_counter(), 0x206);
    assert_eq!(rig.stack, vec![0x202]);
    rig.steps(2);
    assert_eq!(rig.cpu.get_program_counter(), 0x202);
    assert!(rig.stack.is_empty());
    assert_eq!(rig.v(1), 7);
    rig.step();
    assert_eq!(rig.v(0), 1);
}

#[test]
fn skips() {
    // 3XNN taken, then 4XNN not taken, then 5XY0 taken over an F000 word.
    let program = [
        0x60, 0x05, 0x30, 0x05, 0x00, 0x00, 0x40, 0x05, 0x61, 0x05, 0x50, 0x10, 0xF0, 0x00, 0x12, 0x34,
        0x00, 0x00,
    ];
    let mut rig = Rig::new(&program);
    rig.steps(2);
    assert_eq!(rig.cpu.get_program_counter(), 0x206);
    rig.step();
    assert_eq!(rig.cpu.get_program_counter(), 0x208);
    rig.steps(2);
    assert_eq!(rig.cpu.get_program_counter(), 0x210);
}

#[test]
fn skip_if_registers_differ() {
    let mut rig = Rig::new(&[0x60, 0x01, 0x90, 0x10, 0x00, 0x00, 0x00, 0x00]);
    rig.steps(2);
    assert_eq!(rig.cpu.get_program_counter(), 0x206);
}

#[test]
fn jumps() {
    let mut rig = Rig::new(&[0x13, 0x00]);
    rig.step();
    assert_eq!(rig.cpu.get_program_counter(), 0x300);

    let program = [0x60, 0x04, 0x63, 0x10, 0xB3, 0x00];
    let mut rig = Rig::new(&program);
    rig.steps(3);
    assert_eq!(rig.cpu.get_program_counter(), 0x304);

    let mut rig = Rig::new(&program);
    rig.quirks.jump_bits = true;
    rig.steps(3);
    assert_eq!(rig.cpu.get_program_counter(), 0x310);
}

#[test]
fn random_byte_is_masked() {
    let mut rig = Rig::new(&[0xC0, 0x0F, 0xC1, 0xF0]);
    rig.step_random(0xAB);
    assert_eq!(rig.v(0), 0x0B);
    rig.step_random(0xAB);
    assert_eq!(rig.v(1), 0xA0);
}

#[test]
fn random_instruction_through_the_generator() {
    let mut rig = Rig::new(&[0xC0, 0x00, 0xC1, 0x0F]);
    rig.cpu.step(&mut rig.memory, &mut rig.display, &mut rig.stack, &rig.quirks, &rig.keypad);
    assert_eq!(rig.v(0), 0);
    rig.cpu.step(&mut rig.memory, &mut rig.display, &mut rig.stack, &rig.quirks, &rig.keypad);
    assert!(rig.v(1) <= 0x0F);
    assert_eq!(rig.cpu.get_program_counter(), 0x204);
}

#[test]
fn index_register_instructions() {
    let mut rig = Rig::new(&[0xA1, 0x23, 0x60, 0x07, 0xF0, 0x1E, 0xF0, 0x29, 0xF0, 0x30]);
    rig.step();
    assert_eq!(rig.cpu.get_index_register(), 0x123);
    rig.steps(2);
    assert_eq!(rig.cpu.get_index_register(), 0x12A);
    rig.step();
    assert_eq!(rig.cpu.get_index_register(), 35);
    rig.step();
    assert_eq!(rig.cpu.get_index_register(), 70 + 80);
}

#[test]
fn long_index_load_skips_its_operand() {
    let mut rig = Rig::new(&[0xF0, 0x00, 0xBE, 0xEF, 0x60, 0x01]);
    rig.step();
    assert_eq!(rig.cpu.get_index_register(), 0xBEEF);
    assert_eq!(rig.cpu.get_program_counter(), 0x204);
}

#[test]
fn draw_sprite_sets_pixels_and_collision() {
    // I = font digit 0 at address 0, draw it at (1, 2), draw again.
    let mut rig = Rig::new(&[0xA0, 0x00, 0x60, 0x01, 0x61, 0x02, 0xD0, 0x15, 0xD0, 0x15]);
    rig.steps(4);
    let p = &rig.display.planes[0].pixels;
    let row = |y: usize| -> Vec<u8> { (0..8).map(|x| p[y * 64 + 1 + x]).collect() };
    assert_eq!(row(2), vec![1, 1, 1, 1, 0, 0, 0, 0]);
    assert_eq!(row(3), vec![1, 0, 0, 1, 0, 0, 0, 0]);
    assert_eq!(row(6), vec![1, 1, 1, 1, 0, 0, 0, 0]);
    assert_eq!(p.iter().filter(|&&v| v == 1).count(), 14);
    assert_eq!(rig.v(0xF), 0);
    rig.step();
    assert_eq!(rig.v(0xF), 1);
    assert!(rig.display.planes[0].pixels.iter().all(|&v| v == 0));
    assert!(rig.display.planes[1].pixels.iter().all(|&v| v == 0));
}

#[test]
fn draw_sprite_wraps_or_clips() {
    // Digit 0 drawn at (62, 30): wraps to the left and top edges.
    let program = [0xA0, 0x00, 0x60, 62, 0x61, 30, 0xD0, 0x15];
    let mut rig = Rig::new(&program);
    rig.steps(4);
    let p = &rig.display.planes[0].pixels;
    assert_eq!(p[30 * 64 + 62], 1);
    assert_eq!(p[30 * 64 + 1], 1);
    assert_eq!(p[0 * 64 + 62], 1);
    assert_eq!(p.iter().filter(|&&v| v == 1).count(), 14);

    let mut rig = Rig::new(&program);
    rig.quirks.clip_sprites = true;
    rig.steps(4);
    let p = &rig.display.planes[0].pixels;
    assert_eq!(p[30 * 64 + 62], 1);
    assert_eq!(p[30 * 64 + 63], 1);
    assert_eq!(p[30 * 64 + 1], 0);
    assert_eq!(p[0 * 64 + 62], 0);
    assert_eq!(p.iter().filter(|&&v| v == 1).count(), 3);
}

#[test]
fn draw_coordinates_wrap_before_drawing() {
    // (64 + 3, 32 + 1) is drawn at (3, 1).
    let mut rig = Rig::new(&[0xA0, 0x00, 0x60, 67, 0x61, 33, 0xD0, 0x11]);
    rig.steps(4);
    let p = &rig.display.planes[0].pixels;
    assert_eq!((0..8).map(|x| p[64 + 3 + x]).collect::<Vec<u8>>(), vec![1, 1, 1, 1, 0, 0, 0, 0]);
}

#[test]
fn draw_on_both_planes_reads_consecutive_sprites() {
    // Plane mask 3: plane 0 gets the 1-line sprite at I, plane 1 the next one.
    let mut rig = Rig::new(&[0xF3, 0x01, 0xA3, 0x00, 0xD0, 0x01]);
    rig.memory.data[0x300] = 0x80;
    rig.memory.data[0x301] = 0x40;
    rig.steps(3);
    assert_eq!(rig.display.planes[0].pixels[0], 1);
    assert_eq!(rig.display.planes[0].pixels[1], 0);
    assert_eq!(rig.display.planes[1].pixels[0], 0);
    assert_eq!(rig.display.planes[1].pixels[1], 1);
}

#[test]
fn large_sprite_is_sixteen_by_sixteen() {
    let mut rig = Rig::new(&[0xA3, 0x00, 0xD0, 0x00]);
    for i in 0..32 {
        rig.memory.data[0x300 + i] = 0xFF;
    }
    rig.steps(2);
    assert_eq!(rig.display.planes[0].pixels.iter().filter(|&&v| v == 1).count(), 256);
    assert_eq!(rig.display.planes[0].pixels[15 * 64 + 15], 1);
    assert_eq!(rig.display.planes[0].pixels[16 * 64], 0);
}

#[test]
fn clear_screen_clears_active_planes() {
    let mut rig = Rig::new(&[0x00, 0xE0]);
    rig.display.set_plane_pixel(0, 1, 1);
    rig.display.set_plane_pixel(1, 2, 2);
    rig.step();
    assert!(rig.display.planes[0].pixels.iter().all(|&v| v == 0));
    assert_eq!(rig.display.planes[1].pixels[2 * 64 + 2], 1);
}

#[test]
fn resolution_and_exit_messages() {
    let mut rig = Rig::new(&[0x00, 0xFF, 0x00, 0xFE, 0x00, 0xFD]);
    rig.display.set_plane_pixel(0, 1, 1);
    assert_eq!(rig.step(), vec![DeviceMessage::ChangeResolution(DisplayResolution::High)]);
    assert_eq!(rig.display.resolution(), DisplayResolution::High);
    assert_eq!(rig.display.planes[0].pixels, vec![0u8; 8192]);
    assert_eq!(rig.display.planes[1].pixels, vec![0u8; 8192]);
    assert_eq!(rig.step(), vec![DeviceMessage::ChangeResolution(DisplayResolution::Low)]);
    assert_eq!(rig.display.resolution(), DisplayResolution::Low);
    assert_eq!(rig.display.planes[0].pixels.len(), 2048);
    assert_eq!(rig.step(), vec![DeviceMessage::Exit]);
    assert_eq!(rig.cpu.get_program_counter(), 0x204);
}

#[test]
fn scroll_instructions() {
    let mut rig = Rig::new(&[0x00, 0xC2, 0x00, 0xFB, 0x00, 0xD1, 0x00, 0xFC]);
    rig.display.set_plane_pixel(0, 10, 10);
    rig.step();
    assert_eq!(rig.display.planes[0].pixels[12 * 64 + 10], 1);
    rig.step();
    assert_eq!(rig.display.planes[0].pixels[12 * 64 + 14], 1);
    rig.step();
    assert_eq!(rig.display.planes[0].pixels[11 * 64 + 14], 1);
    rig.step();
    assert_eq!(rig.display.planes[0].pixels[11 * 64 + 10], 1);
    assert_eq!(rig.display.planes[0].pixels.iter().filter(|&&v| v == 1).count(), 1);
}

#[test]
fn timers_and_sound() {
    let mut rig = Rig::new(&[0x60, 0x09, 0xF0, 0x15, 0xF1, 0x07, 0xF0, 0x18, 0x62, 0x30, 0xF2, 0x3A]);
    rig.steps(3);
    assert_eq!(rig.cpu.delay_timer(), 9);
    assert_eq!(rig.v(1), 9);
    assert_eq!(rig.step(), vec![DeviceMessage::Beep(9)]);
    assert_eq!(rig.cpu.sound_timer(), 9);
    rig.steps(2);
    assert_eq!(rig.cpu.get_buffer_pitch(), 0x30);
}

#[test]
fn audio_pattern_is_copied() {
    let mut rig = Rig::new(&[0xA3, 0x00, 0xF0, 0x02]);
    for i in 0..16u8 {
        rig.memory.data[0x300 + i as usize] = i + 1;
    }
    rig.step();
    assert_eq!(rig.step(), vec![DeviceMessage::NewAudioBuffer]);
    assert_eq!(rig.cpu.get_audio_buffer(), &(1..=16).collect::<Vec<u8>>());
    rig.cpu.clear_audio_buffer();
    assert!(rig.cpu.get_audio_buffer().is_empty());
}

#[test]
fn sound_timer_of_zero_drops_the_pattern() {
    let mut rig = Rig::new(&[0xA3, 0x00, 0xF0, 0x02, 0xF1, 0x18]);
    rig.steps(2);
    assert_eq!(rig.cpu.get_audio_buffer().len(), 16);
    assert_eq!(rig.step(), vec![DeviceMessage::Beep(0)]);
    assert!(rig.cpu.get_audio_buffer().is_empty());
}

#[test]
fn save_and_restore_flags() {
    let mut rig = Rig::new(&[0x60, 0x05, 0x61, 0x06, 0xF1, 0x75, 0x60, 0x00, 0x61, 0x00, 0xF1, 0x85]);
    rig.steps(4);
    assert_eq!(rig.v(0), 0);
    rig.steps(2);
    assert_eq!(rig.v(0), 5);
    assert_eq!(rig.v(1), 6);
}

#[test]
fn save_and_load_register_ranges() {
    // Save V1..V3 at I, then load them back in reverse order (V3..V1).
    let program = [
        0x61, 0x0A, 0x62, 0x0B, 0x63, 0x0C, 0xA3, 0x00, 0x51, 0x32, 0x53, 0x13,
    ];
    let mut rig = Rig::new(&program);
    rig.steps(5);
    assert_eq!(&rig.memory.data[0x300..0x303], &[0x0A, 0x0B, 0x0C]);
    rig.step();
    assert_eq!(rig.v(3), 0x0A);
    assert_eq!(rig.v(2), 0x0B);
    assert_eq!(rig.v(1), 0x0C);
}

#[test]
fn key_skips() {
    let mut rig = Rig::new(&[0x60, 0x0A, 0xE0, 0x9E, 0x00, 0x00, 0xE0, 0xA1, 0x00, 0x00]);
    rig.keypad.set_key(&KeypadKey::A, true);
    rig.steps(2);
    assert_eq!(rig.cpu.get_program_counter(), 0x206);
    rig.step();
    assert_eq!(rig.cpu.get_program_counter(), 0x208);
}

#[test]
fn wait_for_key_press_and_release() {
    let mut rig = Rig::new(&[0xF5, 0x0A, 0x60, 0x01]);
    assert_eq!(rig.step(), vec![DeviceMessage::WaitingForKey(Some(5))]);
    assert!(rig.step().is_empty());
    assert_eq!(rig.cpu.get_program_counter(), 0x202);
    rig.keypad.set_key(&KeypadKey::Num7, true);
    rig.step();
    assert_eq!(rig.v(5), 0);
    rig.step();
    assert_eq!(rig.v(5), 0);
    rig.keypad.set_key(&KeypadKey::Num7, false);
    rig.step();
    assert_eq!(rig.v(5), 7);
    rig.step();
    assert_eq!(rig.v(0), 1);
}

#[test]
fn unknown_instruction_is_reported_and_only_advances() {
    let mut rig = Rig::new(&[0x58, 0x01, 0xE0, 0x00, 0x81, 0x28, 0xF3, 0x99, 0x01, 0xE0]);
    let memory_before = rig.memory.data.clone();
    assert_eq!(rig.step(), vec![DeviceMessage::UnknownOpCode(0x5801)]);
    assert_eq!(rig.step(), vec![DeviceMessage::UnknownOpCode(0xE000)]);
    assert_eq!(rig.step(), vec![DeviceMessage::UnknownOpCode(0x8128)]);
    assert_eq!(rig.step(), vec![DeviceMessage::UnknownOpCode(0xF399)]);
    assert_eq!(rig.step(), vec![DeviceMessage::UnknownOpCode(0x01E0)]);
    assert_eq!(rig.cpu.get_program_counter(), 0x20A);
    assert_eq!(rig.cpu.get_registers(), &vec![0u8; 16]);
    assert_eq!(rig.cpu.get_index_register(), 0);
    assert_eq!(rig.memory.data, memory_before);
    assert!(rig.stack.is_empty());
}

#[test]
fn steps_that_cannot_run_are_refused() {
    let rig = Rig::new(&[0x00, 0xEE]);
    assert!(!rig.cpu.can_step(&rig.memory, &rig.display, &rig.stack, &rig.quirks, &rig.keypad));
    let rig = Rig::new(&[0x00, 0xE0]);
    assert!(rig.cpu.can_step(&rig.memory, &rig.display, &rig.stack, &rig.quirks, &rig.keypad));
}

#[test]
fn timer_setters() {
    let mut cpu = CPU::default();
    cpu.set_delay_timer(3);
    cpu.set_sound_timer(4);
    assert_eq!(cpu.delay_timer(), 3);
    assert_eq!(cpu.sound_timer(), 4);
}
