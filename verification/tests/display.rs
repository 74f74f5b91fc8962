use c8::display::{
    Display, DisplayResolution, PLANE_COUNT, SCREEN_SIZE_HIGH, SCREEN_SIZE_LOW,
};

#[test]
fn test_display_default() {
    let display = Display::default();

    for plane in display.planes.iter() {
        assert_eq!(plane.pixels, vec![0; SCREEN_SIZE_LOW]);
    }
}

#[test]
fn test_display_resolution() {
    let mut display = Display::default();

    display.set_resolution(DisplayResolution::High);
    assert_eq!(display.resolution(), DisplayResolution::High);
    assert_eq!(display.screen_size(), SCREEN_SIZE_HIGH);

    display.set_resolution(DisplayResolution::Low);
    assert_eq!(display.resolution(), DisplayResolution::Low);
    assert_eq!(display.screen_size(), SCREEN_SIZE_LOW);
}

#[test]
fn test_display_clear() {
    let mut display = Display::default();
    let screen_size = display.screen_size();

    let active_plane = display.active_plane();

    display.planes[active_plane].pixels = vec![1; screen_size];

    display.clear(active_plane);

    assert_eq!(display.planes[active_plane].pixels, vec![0; screen_size]);
}

#[test]
fn test_display_set_pixel() {
    let mut display = Display::default();

    // Coordinates inside the 64 x 32 screen, one pair per plane.
    let points = [(17usize, 9usize), (42usize, 30usize)];

    for plane in 0..2 {
        let (x, y) = points[plane];
        let pixel_index = display.pixel_index(x, y);

        display.set_plane_pixel(plane, x, y);
        assert_eq!(display.planes[plane].pixels[pixel_index], 1);

        display.set_plane_pixel(plane, x, y);
        assert_eq!(display.planes[plane].pixels[pixel_index], 0);

        // The last pixel of the screen, in its bottom right corner.
        let (width, height) = display.screen_size_xy();

        display.set_plane_pixel(plane, width - 1, height - 1);
        assert_eq!(
            display.planes[plane].pixels[display.pixel_index(width - 1, height - 1)],
            1
        );
    }
}

#[test]
fn display_default_shape() {
    let display = Display::default();
    assert_eq!(display.plane_count(), PLANE_COUNT);
    assert_eq!(display.active_plane(), 1);
    assert_eq!(display.resolution(), DisplayResolution::Low);
    assert_eq!(display.screen_size_xy(), (64, 32));
}

#[test]
fn resolution_sizes_and_names() {
    assert_eq!(DisplayResolution::Low.resolution_size(), 2048);
    assert_eq!(DisplayResolution::High.resolution_size(), 8192);
    assert_eq!(DisplayResolution::Low.resolution_size_xy(), (64, 32));
    assert_eq!(DisplayResolution::High.resolution_size_xy(), (128, 64));
    assert_eq!(DisplayResolution::Low.resolution_str(), "Low");
    assert_eq!(DisplayResolution::High.resolution_str(), "High");
}

#[test]
fn set_resolution_clears_every_plane() {
    let mut display = Display::default();
    display.set_plane_pixel(0, 3, 4);
    display.set_plane_pixel(1, 5, 6);
    display.set_resolution(DisplayResolution::High);
    assert_eq!(display.planes[0].pixels, vec![0; SCREEN_SIZE_HIGH]);
    assert_eq!(display.planes[1].pixels, vec![0; SCREEN_SIZE_HIGH]);
    assert_eq!(display.screen_size_xy(), (128, 64));
}

#[test]
fn pixel_index_is_row_major() {
    let mut display = Display::default();
    assert_eq!(display.pixel_index(0, 0), 0);
    assert_eq!(display.pixel_index(5, 2), 2 * 64 + 5);
    assert_eq!(display.pixel_index(63, 31), 2047);
    display.set_resolution(DisplayResolution::High);
    assert_eq!(display.pixel_index(5, 2), 2 * 128 + 5);
}

#[test]
fn set_plane_pixel_toggles_and_reports_collision() {
    let mut display = Display::default();
    let index = display.pixel_index(10, 7);
    assert_eq!(display.set_plane_pixel(0, 10, 7), 0);
    assert_eq!(display.planes[0].pixels[index], 1);
    assert_eq!(display.planes[1].pixels[index], 0);
    assert_eq!(display.set_plane_pixel(0, 10, 7), 1);
    assert_eq!(display.planes[0].pixels[index], 0);
    assert!(display.planes[0].pixels.iter().all(|&p| p == 0));
}

#[test]
fn set_active_plane_keeps_two_bits() {
    let mut display = Display::default();
    display.set_active_plane(3);
    assert_eq!(display.active_plane(), 3);
    display.set_active_plane(6);
    assert_eq!(display.active_plane(), 2);
    display.set_active_plane(0);
    assert_eq!(display.active_plane(), 0);
}

#[test]
fn zipped_iterator_pairs_the_planes() {
    let mut display = Display::default();
    display.set_plane_pixel(0, 1, 0);
    display.set_plane_pixel(1, 2, 0);
    display.set_plane_pixel(0, 3, 0);
    display.set_plane_pixel(1, 3, 0);
    let pairs = display.zipped_iterator();
    assert_eq!(pairs.len(), SCREEN_SIZE_LOW);
    assert_eq!(pairs[0], (0, 0));
    assert_eq!(pairs[1], (1, 0));
    assert_eq!(pairs[2], (0, 1));
    assert_eq!(pairs[3], (1, 1));
}

#[test]
fn plane_pixels_reads_a_plane() {
    let mut display = Display::default();
    display.set_plane_pixel(1, 0, 1);
    assert_eq!(display.plane_pixels(1)[64], 1);
    assert_eq!(display.plane_pixels(0)[64], 0);
}

#[test]
fn scroll_down_moves_rows_and_blanks_the_top() {
    let mut display = Display::default();
    display.set_active_plane(1);
    display.set_plane_pixel(0, 4, 0);
    display.set_plane_pixel(0, 4, 31);
    display.scroll_down(2);
    let p = &display.planes[0].pixels;
    assert_eq!(p[display.pixel_index(4, 0)], 0);
    assert_eq!(p[display.pixel_index(4, 2)], 1);
    assert_eq!(p.iter().filter(|&&v| v == 1).count(), 1);
}

#[test]
fn scroll_up_moves_rows_and_blanks_the_bottom() {
    let mut display = Display::default();
    display.set_active_plane(1);
    display.set_plane_pixel(0, 4, 0);
    display.set_plane_pixel(0, 4, 5);
    display.scroll_up(3);
    let p = &display.planes[0].pixels;
    assert_eq!(p[display.pixel_index(4, 2)], 1);
    assert_eq!(p.iter().filter(|&&v| v == 1).count(), 1);
}

#[test]
fn scroll_left_and_right_move_columns() {
    let mut display = Display::default();
    display.set_active_plane(1);
    display.set_plane_pixel(0, 10, 3);
    display.set_plane_pixel(0, 1, 3);
    display.scroll_left(4);
    {
        let p = &display.planes[0].pixels;
        assert_eq!(p[display.pixel_index(6, 3)], 1);
        assert_eq!(p.iter().filter(|&&v| v == 1).count(), 1);
    }
    display.scroll_right(4);
    let p = &display.planes[0].pixels;
    assert_eq!(p[display.pixel_index(10, 3)], 1);
    assert_eq!(p[display.pixel_index(6, 3)], 0);
    assert_eq!(p.iter().filter(|&&v| v == 1).count(), 1);
}

#[test]
fn scroll_right_drops_pixels_at_the_edge() {
    let mut display = Display::default();
    display.set_active_plane(1);
    display.set_plane_pixel(0, 62, 0);
    display.scroll_right(4);
    assert!(display.planes[0].pixels.iter().all(|&p| p == 0));
}

#[test]
fn scroll_leaves_inactive_planes_alone() {
    let mut display = Display::default();
    display.set_active_plane(1);
    display.set_plane_pixel(1, 4, 0);
    display.scroll_down(1);
    assert_eq!(display.planes[1].pixels[display.pixel_index(4, 0)], 1);
    assert_eq!(display.planes[1].pixels[display.pixel_index(4, 1)], 0);
}

#[test]
fn scroll_by_zero_changes_nothing() {
    let mut display = Display::default();
    display.set_active_plane(3);
    display.set_plane_pixel(0, 9, 9);
    display.set_plane_pixel(1, 19, 19);
    let before0 = display.planes[0].pixels.clone();
    let before1 = display.planes[1].pixels.clone();
    display.scroll_down(0);
    display.scroll_up(0);
    display.scroll_left(0);
    display.scroll_right(0);
    assert_eq!(display.planes[0].pixels, before0);
    assert_eq!(display.planes[1].pixels, before1);
}
