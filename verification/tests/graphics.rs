use embedded_hal_sim::graphics::Display;
use embedded_hal_sim::graphics::Pixel;

fn pixel(x: i32, y: i32, luma: u8) -> Pixel {
    Pixel { x, y, luma }
}

fn frame(display: &Display<4, 3>) -> [[u8; 4]; 3] {
    *display.rows()
}

#[test]
fn a_new_display_is_black() {
    let display = Display::<4, 3>::new();
    assert_eq!(frame(&display), [[0; 4]; 3]);
    assert_eq!(display.size(), (4, 3));
}

#[test]
fn a_pixel_sets_its_cell_only() {
    let mut display = Display::<4, 3>::new();
    display.draw_pixel(pixel(1, 2, 200));
    assert_eq!(frame(&display), [[0, 0, 0, 0], [0, 0, 0, 0], [0, 200, 0, 0]]);
    assert_eq!(display.pixel(1, 2), Some(200));
    assert_eq!(display.pixel(2, 1), Some(0));
}

#[test]
fn the_corners_are_on_the_display() {
    let mut display = Display::<4, 3>::new();
    display.draw_iter(&[pixel(0, 0, 1), pixel(3, 0, 2), pixel(0, 2, 3), pixel(3, 2, 4)]);
    assert_eq!(frame(&display), [[1, 0, 0, 2], [0, 0, 0, 0], [3, 0, 0, 4]]);
}

#[test]
fn pixels_outside_change_nothing() {
    let mut display = Display::<4, 3>::new();
    display.clear(9);
    display.draw_iter(&[
        pixel(4, 0, 1),
        pixel(0, 3, 1),
        pixel(-1, 0, 1),
        pixel(0, -1, 1),
        pixel(-1, -1, 1),
        pixel(4, 3, 1),
        pixel(i32::MAX, 1, 1),
        pixel(1, i32::MAX, 1),
        pixel(i32::MIN, 1, 1),
        pixel(1, i32::MIN, 1),
    ]);
    assert_eq!(frame(&display), [[9; 4]; 3]);
    display.draw_pixel(pixel(3, 3, 1));
    display.draw_pixel(pixel(-4, 2, 1));
    assert_eq!(frame(&display), [[9; 4]; 3]);
}

#[test]
fn pixels_are_drawn_in_their_order() {
    let mut display = Display::<4, 3>::new();
    display.draw_iter(&[pixel(2, 1, 10), pixel(7, 7, 99), pixel(2, 1, 20), pixel(3, 1, 30)]);
    assert_eq!(frame(&display), [[0, 0, 0, 0], [0, 0, 20, 30], [0, 0, 0, 0]]);
}

#[test]
fn drawing_nothing_changes_nothing() {
    let mut display = Display::<4, 3>::new();
    display.draw_pixel(pixel(1, 1, 5));
    display.draw_iter(&[]);
    assert_eq!(frame(&display), [[0, 0, 0, 0], [0, 5, 0, 0], [0, 0, 0, 0]]);
}

#[test]
fn clear_sets_every_cell() {
    let mut display = Display::<4, 3>::new();
    display.draw_pixel(pixel(1, 1, 5));
    display.clear(0x80);
    assert_eq!(frame(&display), [[0x80; 4]; 3]);
    display.clear(0);
    assert_eq!(frame(&display), [[0; 4]; 3]);
}

#[test]
fn there_is_no_pixel_outside() {
    let display = Display::<4, 3>::new();
    assert_eq!(display.pixel(3, 2), Some(0));
    assert_eq!(display.pixel(4, 2), None);
    assert_eq!(display.pixel(3, 3), None);
    assert_eq!(display.pixel(usize::MAX, 0), None);
}

#[test]
fn a_display_without_cells_takes_any_pixel() {
    let mut display = Display::<0, 0>::new();
    display.draw_pixel(pixel(0, 0, 1));
    display.clear(3);
    assert_eq!(display.size(), (0, 0));
    assert_eq!(display.pixel(0, 0), None);
}
