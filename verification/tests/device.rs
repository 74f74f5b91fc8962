use c8::device::{AudioRequest, C8};
use c8::display::DisplayResolution;
use c8::fonts::{font_data, FontName, FontSize};
use c8::keypad::KeypadKey;
use c8::message::DeviceMessage;
use c8::quirks::Quirks;

#[test]
fn device_test_load_rom() {
    let mut c8 = C8::default();
    c8.load_rom(&vec![0x00, 0xE0, 0x00, 0xEE]);
    assert_eq!(c8.get_memory().data[0x200], 0x00);
    assert_eq!(c8.get_memory().data[0x201], 0xE0);
    assert_eq!(c8.get_memory().data[0x202], 0x00);
    assert_eq!(c8.get_memory().data[0x203], 0xEE);
}

#[test]
fn test_reset_device() {
    let mut c8 = C8::default();
    c8.get_memory_mut().data[0x200] = 0x01;
    c8.get_memory_mut().data[0x201] = 0x02;
    c8.get_memory_mut().data[0x202] = 0x03;
    c8.get_memory_mut().data[0x203] = 0x04;
    c8.reset_device();
    assert_eq!(c8.get_memory().data[0x200], 0x00);
    assert_eq!(c8.get_memory().data[0x201], 0x00);
    assert_eq!(c8.get_memory().data[0x202], 0x00);
    assert_eq!(c8.get_memory().data[0x203], 0x00);
}

#[test]
fn test_step_timers() {
    let mut c8 = C8::default();
    c8.load_rom(&vec![0x00, 0xE0, 0x00, 0xEE]);
    c8.get_cpu_mut().set_delay_timer(1);
    c8.get_cpu_mut().set_sound_timer(1);
    c8.step(1);
    assert_eq!(c8.get_cpu().delay_timer(), 0);
    assert_eq!(c8.get_cpu().sound_timer(), 0);
}

#[test]
fn default_device_is_stopped() {
    let mut c8 = C8::default();
    assert!(!c8.get_is_running());
    assert_eq!(c8.get_quirks(), &Quirks::default());
    assert_eq!(c8.get_display().resolution(), DisplayResolution::Low);
    assert_eq!(c8.get_cpu().get_program_counter(), 0x200);
    assert!(c8.temp_enable_audio);
    let before = c8.get_memory().data.clone();
    assert!(c8.step(10).is_empty());
    assert_eq!(c8.get_memory().data, before);
    assert_eq!(c8.get_cpu().get_program_counter(), 0x200);
    assert!(c8.take_audio_requests().is_empty());
}

#[test]
fn load_rom_starts_the_device() {
    let mut c8 = C8::default();
    c8.load_rom(&[0x60, 0x2A, 0x12, 0x02]);
    assert!(c8.get_is_running());
    assert_eq!(c8.get_cpu().get_program_counter(), 0x200);
    assert!(c8.step(5).is_empty());
    assert_eq!(c8.get_cpu().get_registers()[0], 0x2A);
    assert_eq!(c8.get_cpu().get_program_counter(), 0x202);
}

#[test]
fn reset_keeps_the_font_and_asks_to_stop() {
    let mut c8 = C8::default();
    c8.get_memory_mut().load_font_name(FontName::VIP, FontSize::Small);
    c8.load_rom(&[0x60, 0x01]);
    c8.step(1);
    c8.reset_device();
    assert!(!c8.get_is_running());
    assert_eq!(c8.get_memory().system_font, FontName::VIP);
    let vip = font_data(FontName::VIP).small_data;
    assert_eq!(&c8.get_memory().data[..vip.len()], &vip[..]);
    assert_eq!(c8.get_cpu().get_registers()[0], 0);
    let requests = c8.take_audio_requests();
    assert_eq!(requests.last(), Some(&AudioRequest::Stop));
    assert!(c8.take_audio_requests().is_empty());
}

#[test]
fn reset_twice_is_reset_once() {
    let mut c8 = C8::default();
    c8.load_rom(&[0x60, 0x01, 0x61, 0x02]);
    c8.step(2);
    c8.reset_device();
    let once = c8.get_memory().data.clone();
    let pc = c8.get_cpu().get_program_counter();
    c8.reset_device();
    assert_eq!(c8.get_memory().data, once);
    assert_eq!(c8.get_cpu().get_program_counter(), pc);
    assert_eq!(
        c8.take_audio_requests(),
        vec![AudioRequest::Stop, AudioRequest::Pause, AudioRequest::Stop, AudioRequest::Stop]
    );
}

#[test]
fn empty_rom_runs_on_zero_memory() {
    let mut c8 = C8::default();
    c8.load_rom(&[]);
    assert!(c8.get_is_running());
    assert_eq!(c8.get_memory().data[0x200], 0);
    assert!(c8.step(3).is_empty());
    assert_eq!(c8.get_cpu().get_program_counter(), 0x206);
}

#[test]
fn resolution_message_is_acted_on() {
    let mut c8 = C8::default();
    c8.load_rom(&[0x00, 0xFF]);
    let messages = c8.step(1);
    assert_eq!(messages, vec![DeviceMessage::ChangeResolution(DisplayResolution::High)]);
    assert_eq!(c8.get_display().resolution(), DisplayResolution::High);
    assert_eq!(c8.get_display().planes[0].pixels.len(), 8192);
}

#[test]
fn resolution_change_is_set_again_at_the_end_of_the_frame() {
    let mut c8 = C8::default();
    // Switch to high resolution, then draw digit 0 at (100, 40) in the same
    // frame: the device sets the resolution again after the frame's steps,
    // which clears the drawing.
    c8.load_rom(&[0x00, 0xFF, 0xA0, 0x00, 0x60, 100, 0x61, 40, 0xD0, 0x15, 0x12, 0x0A]);
    let messages = c8.step(6);
    assert_eq!(messages, vec![DeviceMessage::ChangeResolution(DisplayResolution::High)]);
    assert_eq!(c8.get_display().resolution(), DisplayResolution::High);
    assert_eq!(c8.get_display().planes[0].pixels, vec![0u8; 8192]);
    assert_eq!(c8.get_cpu().get_registers()[0xF], 0);
    // Drawn in a later frame, the sprite stays.
    let mut c8 = C8::default();
    c8.load_rom(&[0x00, 0xFF, 0xA0, 0x00, 0x60, 100, 0x61, 40, 0xD0, 0x15, 0x12, 0x0A]);
    c8.step(1);
    c8.step(5);
    let pixels = &c8.get_display().planes[0].pixels;
    assert_eq!(pixels[40 * 128 + 100], 1);
    assert_eq!(pixels.iter().filter(|&&p| p == 1).count(), 14);
}

#[test]
fn unknown_instruction_reaches_the_host() {
    let mut c8 = C8::default();
    c8.load_rom(&[0x80, 0x0F, 0x60, 0x03]);
    assert_eq!(c8.step(2), vec![DeviceMessage::UnknownOpCode(0x800F)]);
    assert!(c8.get_is_running());
    assert_eq!(c8.get_cpu().get_registers()[0], 3);
}

#[test]
fn exit_resets_the_device() {
    let mut c8 = C8::default();
    c8.load_rom(&[0x60, 0x07, 0x00, 0xFD]);
    let messages = c8.step(2);
    assert_eq!(messages, vec![DeviceMessage::Exit]);
    assert!(!c8.get_is_running());
    assert_eq!(c8.get_cpu().get_registers()[0], 0);
    assert_eq!(c8.get_memory().data[0x200], 0);
}

#[test]
fn return_on_empty_stack_faults() {
    let mut c8 = C8::default();
    c8.load_rom(&[0x60, 0x01, 0x00, 0xEE, 0x61, 0x01]);
    let messages = c8.step(4);
    assert_eq!(messages, vec![DeviceMessage::Fault(0x202)]);
    assert!(!c8.get_is_running());
    assert_eq!(c8.get_cpu().get_registers()[0], 1);
    assert_eq!(c8.get_cpu().get_registers()[1], 0);
    assert!(c8.step(1).is_empty());
}

#[test]
fn beep_and_sound_requests() {
    let mut c8 = C8::default();
    c8.load_rom(&[0x60, 0x02, 0xF0, 0x18, 0x12, 0x04]);
    assert_eq!(c8.take_audio_requests(), vec![AudioRequest::Stop]);
    assert!(c8.step(1).is_empty());
    assert_eq!(c8.take_audio_requests(), vec![AudioRequest::Pause]);
    assert_eq!(c8.step(1), vec![DeviceMessage::Beep(2)]);
    assert_eq!(c8.take_audio_requests(), vec![AudioRequest::Pause, AudioRequest::PlayBeep]);
    c8.step(1);
    assert_eq!(c8.take_audio_requests(), vec![AudioRequest::PlayBeep]);
    assert_eq!(c8.get_cpu().sound_timer(), 1);
    c8.step(1);
    assert_eq!(c8.take_audio_requests(), vec![AudioRequest::PlayBeep]);
    c8.step(1);
    assert_eq!(c8.take_audio_requests(), vec![AudioRequest::Pause]);
}

#[test]
fn muted_device_asks_for_no_sound() {
    let mut c8 = C8::default();
    c8.load_rom(&[0x60, 0x02, 0xF0, 0x18, 0x12, 0x04]);
    c8.set_audio_enabled(false);
    c8.take_audio_requests();
    c8.step(2);
    c8.step(1);
    assert_eq!(c8.take_audio_requests(), vec![AudioRequest::Pause]);
    assert_eq!(c8.get_cpu().sound_timer(), 1);
}

#[test]
fn audio_pattern_is_requested_with_its_pitch() {
    let mut c8 = C8::default();
    // I = 0x300, load the pattern, pitch V1 = 0x50, sound timer V0 = 3.
    c8.load_rom(&[0xA3, 0x00, 0xF0, 0x02, 0x61, 0x50, 0xF1, 0x3A, 0x60, 0x03, 0xF0, 0x18, 0x12, 0x0C]);
    for i in 0..16 {
        c8.get_memory_mut().data[0x300 + i] = 0xF0;
    }
    c8.step(6);
    c8.take_audio_requests();
    c8.step(1);
    assert_eq!(c8.take_audio_requests(), vec![AudioRequest::PlayBuffer]);
    assert_eq!(c8.requested_buffer(), &vec![0xF0u8; 16]);
    assert_eq!(c8.requested_pitch(), 0x50);
}

#[test]
fn keypad_drives_key_wait() {
    let mut c8 = C8::default();
    c8.load_rom(&[0xF3, 0x0A, 0x12, 0x02]);
    assert_eq!(c8.step(1), vec![DeviceMessage::WaitingForKey(Some(3))]);
    c8.get_keypad_mut().set_key(&KeypadKey::E, true);
    c8.step(1);
    assert!(c8.get_keypad().is_key_pressed(&KeypadKey::E));
    c8.get_keypad_mut().set_key(&KeypadKey::E, false);
    c8.step(1);
    assert_eq!(c8.get_cpu().get_registers()[3], 0xE);
}

#[test]
fn quirks_change_execution() {
    let mut c8 = C8::default();
    let mut quirks = Quirks::default();
    quirks.vf_zero = true;
    c8.load_rom(&[0x6F, 0x05, 0x80, 0x11]);
    c8.set_quirks(quirks);
    assert_eq!(c8.get_quirks(), &quirks);
    c8.step(2);
    assert_eq!(c8.get_cpu().get_registers()[0xF], 0);
}

#[test]
fn display_is_reachable_from_the_device() {
    let mut c8 = C8::default();
    c8.get_display_mut().set_plane_pixel(0, 1, 1);
    assert_eq!(c8.get_display().planes[0].pixels[65], 1);
    c8.load_rom(&[0x00, 0xE0]);
    assert_eq!(c8.get_display().planes[0].pixels[65], 0);
}
