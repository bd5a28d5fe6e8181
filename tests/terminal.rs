use kernel_display::cell::{CharacterAttributes, ColorCode, ScreenChar, TextColor, UNSUPPORTED_GLYPH};
use kernel_display::geometry::{Color, Position, Region, Size};
use kernel_display::text::{ScrollDirection, BUFFER_HEIGHT, BUFFER_WIDTH};
use kernel_display::text_driver::TextDisplayDriver;

fn blank(bg: TextColor) -> ScreenChar {
    ScreenChar::new(' ', ColorCode::new(bg, bg), CharacterAttributes::new(false, false))
}

fn white(c: char) -> ScreenChar {
    ScreenChar::new(c, ColorCode::new(TextColor::White, TextColor::Black), CharacterAttributes::new(false, false))
}

fn dirty_count(d: &TextDisplayDriver) -> usize {
    let mut n = 0;
    for row in 0..BUFFER_HEIGHT {
        for col in 0..BUFFER_WIDTH {
            if d.is_dirty(row, col) {
                n += 1;
            }
        }
    }
    n
}

#[test]
fn palette_indices_round_trip() {
    for i in 0u8..16 {
        assert_eq!(TextColor::from_u8(i).unwrap().as_u8(), i);
    }
    assert_eq!(TextColor::from_u8(16), None);
    assert_eq!(TextColor::from_u8(255), None);
    assert_eq!(TextColor::from_u8(9), Some(TextColor::Red));
    let c: Color = TextColor::Teal.into();
    assert_eq!(c, Color::new(0, 128, 128));
}

#[test]
fn color_code_packs_nibbles() {
    let code = ColorCode::new(TextColor::Yellow, TextColor::Navy);
    assert_eq!(code.0, 0x4B);
    assert_eq!(code.foreground(), TextColor::Yellow);
    assert_eq!(code.background(), TextColor::Navy);
    let inv = code.invert();
    assert_eq!(inv.0, 0xB4);
    assert_eq!(inv.foreground(), TextColor::Navy);
    assert_eq!(inv.background(), TextColor::Yellow);
}

#[test]
fn attribute_bits() {
    assert_eq!(CharacterAttributes::new(false, false).0, 0);
    assert_eq!(CharacterAttributes::new(true, false).0, 1);
    assert_eq!(CharacterAttributes::new(false, true).0, 2);
    let both = CharacterAttributes::new(true, true);
    assert_eq!(both.0, 3);
    assert!(both.underline() && both.strikethrough());
}

#[test]
fn screen_char_packs_fields() {
    let sc = ScreenChar::new('A', ColorCode::new(TextColor::White, TextColor::Blue), CharacterAttributes::new(true, false));
    assert_eq!(sc.0, 0x01CF41);
    assert_eq!(sc.character(), 'A');
    assert_eq!(sc.color().0, 0xCF);
    assert_eq!(sc.attributes().0, 1);
}

#[test]
fn unsupported_character_becomes_marker() {
    let sc = white('€');
    assert_eq!(sc.character(), UNSUPPORTED_GLYPH);
    assert_eq!(sc.color().foreground(), TextColor::White);
    assert_eq!(white('é').character(), 'é');
}

#[test]
fn write_marks_one_cell_and_render_cleans() {
    let mut d = TextDisplayDriver::new();
    d.move_cursor(Position::new(7, 3));
    d.write_char('x');
    assert_eq!(dirty_count(&d), 1);
    assert!(d.is_dirty(3, 7));
    assert_eq!(d.cell_at(3, 7), white('x'));
    assert_eq!(d.get_cursor_position(), Position::new(8, 3));
}

#[test]
fn write_wraps_past_right_edge() {
    let mut d = TextDisplayDriver::new();
    d.move_cursor(Position::new(BUFFER_WIDTH, 2));
    d.write_char('q');
    assert_eq!(d.cell_at(3, 0), white('q'));
    assert_eq!(d.get_cursor_position(), Position::new(1, 3));
}

#[test]
fn write_at_bottom_right_scrolls() {
    let mut d = TextDisplayDriver::new();
    d.move_cursor(Position::new(0, 5));
    d.write_char('a');
    d.move_cursor(Position::new(BUFFER_WIDTH, BUFFER_HEIGHT - 1));
    d.write_char('z');
    assert_eq!(d.cell_at(4, 0), white('a'));
    assert_eq!(d.cell_at(5, 0), blank(TextColor::Black));
    assert_eq!(d.cell_at(BUFFER_HEIGHT - 1, 0), white('z'));
    assert_eq!(d.get_cursor_position(), Position::new(1, BUFFER_HEIGHT - 1));
    assert_eq!(dirty_count(&d), BUFFER_WIDTH * BUFFER_HEIGHT);
}

#[test]
fn write_below_grid_scrolls_until_it_fits() {
    let mut d = TextDisplayDriver::new();
    d.move_cursor(Position::new(0, 10));
    d.write_char('a');
    d.move_cursor(Position::new(3, BUFFER_HEIGHT + 2));
    d.write_char('b');
    assert_eq!(d.cell_at(7, 0), white('a'));
    assert_eq!(d.cell_at(BUFFER_HEIGHT - 1, 3), white('b'));
    assert_eq!(d.get_cursor_position(), Position::new(4, BUFFER_HEIGHT - 1));
}

#[test]
fn control_characters_move_cursor() {
    let mut d = TextDisplayDriver::new();
    d.write_string("ab\tc");
    assert_eq!(d.cell_at(0, 6), white('c'));
    d.write_char('\r');
    assert_eq!(d.get_cursor_position(), Position::new(0, 0));
    d.write_line("hi");
    assert_eq!(d.get_cursor_position(), Position::new(0, 1));
    assert_eq!(d.cell_at(0, 1), white('i'));
}

#[test]
fn line_feed_on_last_row_scrolls() {
    let mut d = TextDisplayDriver::new();
    d.write_string("top");
    d.move_cursor(Position::new(4, BUFFER_HEIGHT - 1));
    d.new_line();
    assert_eq!(d.get_cursor_position(), Position::new(0, BUFFER_HEIGHT - 1));
    assert_eq!(d.cell_at(0, 0), blank(TextColor::Black));
}

#[test]
fn style_applies_to_later_writes() {
    let mut d = TextDisplayDriver::new();
    d.write_char('a');
    d.set_text_color(TextColor::Lime);
    d.set_background_color(TextColor::Maroon);
    d.set_underline(true);
    d.set_strikethrough(true);
    d.write_char('b');
    assert_eq!(d.cell_at(0, 0), white('a'));
    let b = d.cell_at(0, 1);
    assert_eq!(b.color().foreground(), TextColor::Lime);
    assert_eq!(b.color().background(), TextColor::Maroon);
    assert!(b.attributes().underline() && b.attributes().strikethrough());
}

#[test]
fn scroll_up_moves_rows_and_blanks_bottom() {
    let mut d = TextDisplayDriver::new();
    for row in 0..BUFFER_HEIGHT {
        d.move_cursor(Position::new(0, row));
        d.write_char((b'a' + row as u8) as char);
    }
    d.set_background_color(TextColor::Blue);
    d.move_cursor(Position::new(5, 10));
    d.scroll(3, ScrollDirection::Up);
    for row in 0..BUFFER_HEIGHT - 3 {
        assert_eq!(d.cell_at(row, 0), white((b'a' + row as u8 + 3) as char));
    }
    for row in BUFFER_HEIGHT - 3..BUFFER_HEIGHT {
        assert_eq!(d.cell_at(row, 0), blank(TextColor::Blue));
        assert_eq!(d.cell_at(row, 79), blank(TextColor::Blue));
    }
    assert_eq!(d.get_cursor_position(), Position::new(5, 7));
    assert_eq!(dirty_count(&d), BUFFER_WIDTH * BUFFER_HEIGHT);
}

#[test]
fn scroll_up_saturates_cursor() {
    let mut d = TextDisplayDriver::new();
    d.move_cursor(Position::new(2, 1));
    d.scroll(4, ScrollDirection::Up);
    assert_eq!(d.get_cursor_position(), Position::new(2, 0));
}

#[test]
fn scroll_down_mirrors() {
    let mut d = TextDisplayDriver::new();
    for row in 0..BUFFER_HEIGHT {
        d.move_cursor(Position::new(0, row));
        d.write_char((b'a' + row as u8) as char);
    }
    d.move_cursor(Position::new(5, 10));
    d.scroll(2, ScrollDirection::Down);
    for row in 2..BUFFER_HEIGHT {
        assert_eq!(d.cell_at(row, 0), white((b'a' + row as u8 - 2) as char));
    }
    assert_eq!(d.cell_at(0, 0), blank(TextColor::Black));
    assert_eq!(d.cell_at(1, 0), blank(TextColor::Black));
    assert_eq!(d.get_cursor_position(), Position::new(5, 10));
}

#[test]
fn scroll_by_height_clears() {
    let mut d = TextDisplayDriver::new();
    d.set_background_color(TextColor::Red);
    d.write_string("hello");
    d.scroll(BUFFER_HEIGHT, ScrollDirection::Down);
    assert_eq!(d.cell_at(0, 0), blank(TextColor::Black));
    assert_eq!(d.get_cursor_position(), Position::new(0, 0));
    let mut e = TextDisplayDriver::new();
    e.write_string("hello");
    e.scroll(0, ScrollDirection::Up);
    assert_eq!(e.cell_at(0, 0), white('h'));
    assert_eq!(dirty_count(&e), 5);
}

#[test]
fn clear_cell_uses_background_for_both_colors() {
    let mut d = TextDisplayDriver::new();
    d.write_string("abc");
    d.set_background_color(TextColor::Green);
    d.clear_cell(0, 1);
    assert_eq!(d.cell_at(0, 1), blank(TextColor::Green));
    assert_eq!(d.cell_at(0, 0), white('a'));
}

#[test]
fn clear_buffer_keeps_dirty_map() {
    let mut d = TextDisplayDriver::new();
    d.write_string("abc");
    d.clear_buffer();
    assert_eq!(d.cell_at(0, 0), blank(TextColor::Black));
    assert_eq!(d.get_cursor_position(), Position::new(0, 0));
    assert_eq!(dirty_count(&d), 3);
}

#[test]
fn fill_and_fill_region() {
    let mut d = TextDisplayDriver::new();
    d.fill('#');
    assert_eq!(d.cell_at(24, 79), white('#'));
    assert_eq!(dirty_count(&d), 2000);
    let mut e = TextDisplayDriver::new();
    let region = Region::new(Position::new(78, 23), Size::new(2, 2));
    assert!(e.validate_region(region));
    e.fill_region(region, '*');
    assert_eq!(e.cell_at(24, 79), white('*'));
    assert_eq!(e.cell_at(23, 78), white('*'));
    assert_eq!(e.cell_at(22, 78), blank(TextColor::Black));
    assert_eq!(dirty_count(&e), 4);
}

#[test]
fn region_validation() {
    let d = TextDisplayDriver::new();
    assert!(d.validate_region(Region::new(Position::new(0, 0), Size::new(80, 25))));
    assert!(!d.validate_region(Region::new(Position::new(1, 0), Size::new(80, 25))));
    assert!(!d.validate_region(Region::new(Position::new(80, 0), Size::new(0, 0))));
    assert!(!d.validate_region(Region::new(Position::new(0, 0), Size::new(usize::MAX, 1))));
    assert_eq!(d.validate_position(Position::new(79, 25)), (true, false));
}

#[test]
fn init_redraw_marks_everything() {
    let mut d = TextDisplayDriver::new();
    assert_eq!(dirty_count(&d), 0);
    d.init_redraw();
    assert_eq!(dirty_count(&d), 2000);
}

#[test]
fn empty_region_at_the_far_corner_fills_nothing() {
    let mut d = TextDisplayDriver::new();
    d.fill_region(Region::new(Position::new(80, 25), Size::new(0, 0)), '*');
    d.fill_region(Region::new(Position::new(80, 3), Size::new(0, 2)), '*');
    assert_eq!(dirty_count(&d), 0);
}
