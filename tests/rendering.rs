use kernel_display::cell::{CharacterAttributes, ColorCode, ScreenChar, TextColor};
use kernel_display::dirty::dirty_regions;
use kernel_display::error::DisplayError;
use kernel_display::geometry::{Color, Colors, Fonts, Position, Region, Size, TextAlignment, TextBaseline, TextLineHeight};
use kernel_display::manager::DisplayType;
use kernel_display::pixel::{FrameGeometry, PixelLayout};
use kernel_display::segments::{text_segments, TextSegment};
use kernel_display::text::{ScrollDirection, BUFFER_CELLS, BUFFER_HEIGHT, BUFFER_WIDTH};
use kernel_display::text_driver::TextDisplayDriver;

fn region(x: usize, y: usize, w: usize, h: usize) -> Region {
    Region::new(Position::new(x, y), Size::new(w, h))
}

fn cell(c: char, fg: TextColor, bg: TextColor) -> ScreenChar {
    ScreenChar::new(c, ColorCode::new(fg, bg), CharacterAttributes::new(false, false))
}

fn display() -> kernel_display::display::Display {
    let info = FrameGeometry {
        byte_len: 720 * 450 * 3,
        width: 720,
        height: 450,
        pixel_format: PixelLayout::Rgb,
        bytes_per_pixel: 3,
        stride: 720,
    };
    DisplayType::Buffered.new(vec![0u8; info.byte_len], info).unwrap()
}

fn dirty_at(cells: &[(usize, usize)]) -> Vec<bool> {
    let mut d = vec![false; BUFFER_CELLS];
    for (x, y) in cells {
        d[y * BUFFER_WIDTH + x] = true;
    }
    d
}

#[test]
fn no_dirty_cells_no_regions() {
    assert!(dirty_regions(&vec![false; BUFFER_CELLS]).is_empty());
}

#[test]
fn all_dirty_is_one_full_region() {
    assert_eq!(dirty_regions(&vec![true; BUFFER_CELLS]), vec![region(0, 0, 80, 25)]);
}

#[test]
fn separate_groups_give_separate_regions() {
    let d = dirty_at(&[(1, 1), (2, 1), (10, 5), (10, 6), (11, 6)]);
    assert_eq!(dirty_regions(&d), vec![region(1, 1, 2, 1), region(10, 5, 2, 2)]);
}

#[test]
fn diagonal_cells_are_not_connected() {
    let d = dirty_at(&[(3, 3), (4, 4)]);
    assert_eq!(dirty_regions(&d), vec![region(3, 3, 1, 1), region(4, 4, 1, 1)]);
}

#[test]
fn region_is_bounding_box_of_winding_group() {
    let d = dirty_at(&[(5, 0), (5, 1), (5, 2), (4, 2), (3, 2), (3, 1), (0, 24), (79, 24)]);
    assert_eq!(dirty_regions(&d), vec![region(3, 0, 3, 3), region(0, 24, 1, 1), region(79, 24, 1, 1)]);
}

#[test]
fn styled_run_absorbs_differing_cells() {
    let mut cells = vec![cell(' ', TextColor::Black, TextColor::Black); BUFFER_CELLS];
    cells[0] = cell('a', TextColor::White, TextColor::Black);
    cells[1] = cell('b', TextColor::Red, TextColor::Black);
    cells[2] = cell(' ', TextColor::Black, TextColor::Black);
    let segs = text_segments(&cells, &vec![region(0, 0, 3, 1)]);
    assert_eq!(segs.len(), 1);
    assert_eq!(segs[0].text, "ab ");
    assert_eq!(segs[0].text_color, TextColor::White);
}

#[test]
fn blank_run_breaks_on_style_change() {
    let mut cells = vec![cell(' ', TextColor::Black, TextColor::Black); BUFFER_CELLS];
    cells[2] = cell('x', TextColor::Yellow, TextColor::Blue);
    let segs = text_segments(&cells, &vec![region(0, 0, 4, 2)]);
    let expected = vec![
        TextSegment::new("  ".to_string(), Position::new(0, 0), TextColor::Black, TextColor::Black, false, false),
        TextSegment::new("x ".to_string(), Position::new(2, 0), TextColor::Yellow, TextColor::Blue, false, false),
        TextSegment::new("    ".to_string(), Position::new(0, 1), TextColor::Black, TextColor::Black, false, false),
    ];
    assert_eq!(segs, expected);
}

#[test]
fn each_row_ends_its_segment() {
    let cells = vec![cell('.', TextColor::White, TextColor::Black); BUFFER_CELLS];
    let segs = text_segments(&cells, &vec![region(78, 0, 2, 3)]);
    assert_eq!(segs.len(), 3);
    for (row, s) in segs.iter().enumerate() {
        assert_eq!(s.text, "..");
        assert_eq!(s.text_position, Position::new(78, row));
    }
}

#[test]
fn hello_scenario() {
    let mut d = TextDisplayDriver::new();
    d.write_string("HELLO");
    let segs = d.get_text_segments();
    assert_eq!(
        segs,
        vec![TextSegment::new("HELLO".to_string(), Position::new(0, 0), TextColor::White, TextColor::Black, false, false)]
    );

    d.activate(display());
    d.init(&kernel_display::text_driver::TextDisplayDriverArgs::new(Fonts::Font9x18));
    let draws = d.draw_all().unwrap();
    assert_eq!(draws.len(), BUFFER_HEIGHT + 1);
    assert!(d.get_dirty_regions().is_empty());

    d.scroll(1, ScrollDirection::Up);
    for col in 0..5 {
        assert_eq!(d.cell_at(0, col), cell(' ', TextColor::Black, TextColor::Black));
    }
    for col in 0..BUFFER_WIDTH {
        assert_eq!(d.cell_at(BUFFER_HEIGHT - 1, col), cell(' ', TextColor::Black, TextColor::Black));
        assert!(d.is_dirty(BUFFER_HEIGHT - 1, col));
    }
    let draws = d.draw_all().unwrap();
    assert!(draws.iter().all(|t| !t.text.contains('H')));

    d.clear_buffer();
    assert!(d.get_dirty_regions().is_empty());
    d.init_redraw();
    assert_eq!(d.get_dirty_regions(), vec![region(0, 0, 80, 25)]);
}

#[test]
fn render_pass_draws_segments_then_cursor() {
    let mut d = TextDisplayDriver::new();
    d.init(&kernel_display::text_driver::TextDisplayDriverArgs::new(Fonts::Font8x13));
    d.activate(display());
    d.draw_all().unwrap();
    d.move_cursor(Position::new(2, 1));
    d.write_string("ok");
    let draws = d.draw_all().unwrap();
    assert_eq!(draws.len(), 2);
    assert_eq!(draws[0].text, "ok");
    assert_eq!(draws[0].position, Position::new(16, 13));
    assert_eq!(draws[0].text_color, Colors::White.color());
    assert_eq!(draws[0].background_color, Some(Colors::Black.color()));
    assert_eq!(draws[0].font, Fonts::Font8x13);
    assert_eq!(draws[0].baseline, TextBaseline::Top);
    assert_eq!(draws[0].alignment, TextAlignment::Left);
    assert_eq!(draws[0].line_height, TextLineHeight::Full);
    assert_eq!(draws[1].text, " ");
    assert_eq!(draws[1].position, Position::new(32, 13));
    d.blink();
    let draws = d.draw_all().unwrap();
    assert_eq!(draws.len(), 1);
    assert_eq!(draws[0].text_color, Colors::Black.color());
    assert_eq!(draws[0].background_color, Some(Colors::White.color()));
}

#[test]
fn render_pass_needs_display_and_font() {
    let mut d = TextDisplayDriver::new();
    d.write_char('a');
    assert!(matches!(d.draw_all(), Err(DisplayError::NoDisplay)));
    assert!(d.is_dirty(0, 0));
    d.activate(display());
    assert!(matches!(d.draw_all(), Err(DisplayError::NoFont)));
    assert!(d.is_dirty(0, 0));
}

#[test]
fn present_paints_and_publishes() {
    let mut d = TextDisplayDriver::new();
    assert!(d.present(&vec![]).is_err());
    d.activate(display());
    assert_eq!(d.present(&vec![(Position::new(1, 0), Color::new(7, 8, 9))]), Ok(()));
    let shown = d.display().unwrap().frame_buffer();
    assert_eq!(&shown[3..6], &[7, 8, 9]);
    assert_eq!(d.get_size(), Size::new(720, 450));
}
