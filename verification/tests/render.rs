use c8::audio::{respond, stream_response, Message, NullAudio, StreamAction};
use c8::display::{Display, DisplayResolution};
use c8::palette::{palette_pixel_colors, Palette, PixelColors};
use c8::render::{convert_to_rgba8, frame_colors};

#[test]
fn frame_colors_pick_the_layer_of_each_pixel() {
    let colors = palette_pixel_colors(Palette::Octo);
    let mut display = Display::default();
    display.set_plane_pixel(0, 1, 0);
    display.set_plane_pixel(1, 2, 0);
    display.set_plane_pixel(0, 3, 0);
    display.set_plane_pixel(1, 3, 0);
    let image = frame_colors(&display, &colors);
    assert_eq!(image.len(), 2048);
    assert_eq!(image[0], *colors.background_color());
    assert_eq!(image[1], *colors.foreground1_color());
    assert_eq!(image[2], *colors.foreground2_color());
    assert_eq!(image[3], *colors.blended_color());
    assert!(image[4..].iter().all(|c| c == colors.background_color()));
}

#[test]
fn frame_colors_follow_the_resolution() {
    let colors = PixelColors::default();
    let mut display = Display::default();
    display.set_resolution(DisplayResolution::High);
    let image = frame_colors(&display, &colors);
    assert_eq!(image.len(), 8192);
    assert!(image.iter().all(|c| c == colors.background_color()));
}

#[test]
fn rgba8_is_white_on_black() {
    let bytes = convert_to_rgba8(&[1, 0, 2, 1]);
    assert_eq!(
        bytes,
        vec![255, 255, 255, 255, 0, 0, 0, 255, 0, 0, 0, 255, 255, 255, 255, 255]
    );
    assert!(convert_to_rgba8(&[]).is_empty());
    let display = Display::default();
    assert_eq!(convert_to_rgba8(display.plane_pixels(0)).len(), 4 * 2048);
}

#[test]
fn beeper_stream_responses() {
    assert_eq!(stream_response(Message::Play), (StreamAction::Play, true));
    assert_eq!(stream_response(Message::Pause), (StreamAction::Pause, true));
    assert_eq!(stream_response(Message::Update), (StreamAction::Pause, true));
    assert_eq!(stream_response(Message::Stop), (StreamAction::Pause, false));
}

#[test]
fn null_audio_follows_the_beeper_loop() {
    let mut device = NullAudio::default();
    assert!(respond(&mut device, Message::Play));
    assert!(respond(&mut device, Message::Update));
    assert!(!respond(&mut device, Message::Stop));
}
