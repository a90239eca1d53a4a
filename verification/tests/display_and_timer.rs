use chip8::bus::Bus;
use chip8::display::Display;
use chip8::display::CELLS;
use chip8::display::HEIGHT;
use chip8::display::WIDTH;

#[test]
fn new_display_is_blank() {
    let d = Display::new();
    let buffer = d.get_display_buffer();
    assert_eq!(buffer.len(), CELLS);
    assert_eq!(WIDTH * HEIGHT, CELLS);
    assert!(buffer.iter().all(|&c| c == 0));
}

#[test]
fn draw_byte_sets_pixels_msb_first() {
    let mut d = Display::new();
    let collision = d.draw_byte(0b1010_0001, 3, 2);
    assert!(!collision);
    let buffer = d.get_display_buffer();
    assert_eq!(buffer[2 * 64 + 3], 1);
    assert_eq!(buffer[2 * 64 + 4], 0);
    assert_eq!(buffer[2 * 64 + 5], 1);
    assert_eq!(buffer[2 * 64 + 10], 1);
    assert_eq!(buffer.iter().filter(|&&c| c == 1).count(), 3);
}

#[test]
fn draw_byte_twice_restores_and_reports_collision() {
    let mut d = Display::new();
    // light a background pixel that the sprite row will cross
    assert!(!d.draw_byte(0b1000_0000, 12, 7));
    let before: Vec<u8> = d.get_display_buffer().clone();
    // the first draw turns that pixel off: a collision
    assert!(d.draw_byte(0xFF, 12, 7));
    // the second identical draw restores the prior state; its collision
    // flag reflects the pixels that were off before the first draw
    assert!(d.draw_byte(0xFF, 12, 7));
    assert_eq!(d.get_display_buffer().clone(), before);
}

#[test]
fn second_draw_no_collision_when_all_pixels_were_lit() {
    let mut d = Display::new();
    assert!(!d.draw_byte(0xFF, 20, 9));
    // every pixel under the row is now lit; drawing turns them all off
    assert!(d.draw_byte(0xFF, 20, 9));
    // the redraw after that lands only on pixels that were off: no
    // on-to-off transition
    assert!(!d.draw_byte(0xFF, 20, 9));
}

#[test]
fn draw_byte_wraps_horizontally_and_vertically() {
    let mut d = Display::new();
    assert!(!d.draw_byte(0xFF, 62, 33));
    let buffer = d.get_display_buffer();
    // y = 33 wraps to row 1; columns 62..70 wrap to 62, 63, 0..6
    assert_eq!(buffer[1 * 64 + 62], 1);
    assert_eq!(buffer[1 * 64 + 63], 1);
    assert_eq!(buffer[1 * 64 + 0], 1);
    assert_eq!(buffer[1 * 64 + 5], 1);
    assert_eq!(buffer[1 * 64 + 6], 0);
    assert_eq!(buffer.iter().filter(|&&c| c == 1).count(), 8);
}

#[test]
fn clear_turns_every_pixel_off() {
    let mut d = Display::new();
    d.draw_byte(0xFF, 0, 0);
    d.draw_byte(0xFF, 30, 20);
    d.clear();
    assert!(d.get_display_buffer().iter().all(|&c| c == 0));
}

#[test]
fn timer_counts_down_to_zero_and_saturates() {
    let mut bus = Bus::new();
    bus.set_delay_timer(5);
    for expected in (0..5u8).rev() {
        bus.tick();
        assert_eq!(bus.get_delay_timer(), expected);
    }
    // a sixth tick leaves it at zero: no underflow
    bus.tick();
    assert_eq!(bus.get_delay_timer(), 0);
}

#[test]
fn key_snapshot_round_trip() {
    let mut bus = Bus::new();
    assert!(!bus.key_pressed(0));
    assert_eq!(bus.get_key_pressed(), None);
    bus.set_key_pressed(Some(0xC));
    assert!(bus.key_pressed(0xC));
    assert!(!bus.key_pressed(0xB));
    assert_eq!(bus.get_key_pressed(), Some(0xC));
    bus.set_key_pressed(None);
    assert_eq!(bus.get_key_pressed(), None);
}
