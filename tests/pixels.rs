use kernel_display::error::DisplayError;
use kernel_display::geometry::{Color, Colors, Fonts, Position};
use kernel_display::manager::DisplayType;
use kernel_display::pixel::{paint_all, set_pixel_in_at, FrameGeometry, PixelLayout};
use kernel_display::render::map_position;

fn geometry(layout: PixelLayout, bpp: usize, width: usize, height: usize, stride: usize) -> FrameGeometry {
    FrameGeometry {
        byte_len: stride * height * bpp,
        width,
        height,
        pixel_format: layout,
        bytes_per_pixel: bpp,
        stride,
    }
}

#[test]
fn rgb_pixel_round_trip() {
    let info = geometry(PixelLayout::Rgb, 4, 4, 2, 5);
    let mut buf = vec![0u8; info.byte_len];
    let offset = (1 * 5 + 2) * 4;
    assert_eq!(set_pixel_in_at(&mut buf, info, offset, Color::new(10, 20, 30)), Ok(()));
    assert_eq!(&buf[offset..offset + 3], &[10, 20, 30]);
    assert_eq!(buf[offset + 3], 0);
}

#[test]
fn bgr_pixel_round_trip() {
    let info = geometry(PixelLayout::Bgr, 3, 4, 2, 4);
    let mut buf = vec![0u8; info.byte_len];
    assert_eq!(set_pixel_in_at(&mut buf, info, 6, Color::new(10, 20, 30)), Ok(()));
    assert_eq!(&buf[6..9], &[30, 20, 10]);
}

#[test]
fn gray_pixel_round_trip() {
    let info = geometry(PixelLayout::U8, 1, 4, 2, 4);
    let mut buf = vec![0u8; info.byte_len];
    assert_eq!(set_pixel_in_at(&mut buf, info, 3, Color::new(10, 20, 30)), Ok(()));
    assert_eq!(buf[3], 10 / 3 + 20 / 3 + 30 / 3);
    assert_eq!(buf[3], 19);
    assert_eq!(set_pixel_in_at(&mut buf, info, 0, Color::new(255, 255, 255)), Ok(()));
    assert_eq!(buf[0], 255);
    assert_eq!(set_pixel_in_at(&mut buf, info, 1, Color::new(2, 2, 2)), Ok(()));
    assert_eq!(buf[1], 0);
}

#[test]
fn unsupported_layout_is_refused() {
    let info = geometry(PixelLayout::Unknown, 4, 4, 2, 4);
    let mut buf = vec![7u8; info.byte_len];
    assert_eq!(set_pixel_in_at(&mut buf, info, 0, Color::new(1, 2, 3)), Err(DisplayError::UnsupportedPixelFormat));
    assert!(buf.iter().all(|b| *b == 7));
}

#[test]
fn too_few_bytes_per_pixel_is_refused() {
    let info = geometry(PixelLayout::Rgb, 2, 4, 2, 4);
    let mut buf = vec![0u8; info.byte_len];
    assert_eq!(set_pixel_in_at(&mut buf, info, 0, Color::new(1, 2, 3)), Err(DisplayError::InvalidGeometry));
}

#[test]
fn write_past_the_buffer_is_refused() {
    let info = geometry(PixelLayout::Rgb, 3, 2, 1, 2);
    let mut buf = vec![0u8; 6];
    assert_eq!(set_pixel_in_at(&mut buf, info, 4, Color::new(1, 2, 3)), Err(DisplayError::PixelOutOfBounds));
    assert_eq!(buf, vec![0u8; 6]);
}

#[test]
fn paint_all_fills_whole_pixels_only() {
    let info = geometry(PixelLayout::Rgb, 4, 2, 1, 2);
    let mut buf = vec![9u8; 10];
    assert_eq!(paint_all(&mut buf, info, Color::new(1, 2, 3)), Ok(()));
    assert_eq!(buf, vec![1, 2, 3, 9, 1, 2, 3, 9, 9, 9]);
}

#[test]
fn buffered_display_publishes_on_swap() {
    let info = geometry(PixelLayout::Rgb, 3, 2, 2, 2);
    let mut display = DisplayType::Buffered.new(vec![0u8; 12], info).unwrap();
    assert!(matches!(display, kernel_display::display::Display::Buffered(_)));
    assert_eq!(display.set_pixel(Position::new(1, 1), Color::new(10, 20, 30)), Ok(()));
    assert_eq!(display.frame_buffer(), &vec![0u8; 12]);
    assert_eq!(&display.target_buffer()[9..12], &[10, 20, 30]);
    display.swap();
    assert_eq!(&display.frame_buffer()[9..12], &[10, 20, 30]);
}

#[test]
fn simple_display_writes_through() {
    let info = geometry(PixelLayout::Bgr, 3, 2, 2, 2);
    let mut display = DisplayType::Simple.new(vec![0u8; 12], info).unwrap();
    assert_eq!(display.set_pixel(Position::new(0, 1), Color::new(10, 20, 30)), Ok(()));
    assert_eq!(&display.frame_buffer()[6..9], &[30, 20, 10]);
}

#[test]
fn pixel_in_stride_padding_is_written() {
    let info = geometry(PixelLayout::Rgb, 3, 1, 2, 2);
    let mut display = DisplayType::Simple.new(vec![0u8; 12], info).unwrap();
    assert_eq!(display.set_pixel(Position::new(1, 0), Color::new(1, 2, 3)), Ok(()));
    assert_eq!(&display.frame_buffer()[3..6], &[1, 2, 3]);
    let mut buffered = DisplayType::Buffered.new(vec![0u8; 12], info).unwrap();
    assert_eq!(buffered.set_pixel(Position::new(1, 1), Color::new(4, 5, 6)), Ok(()));
    assert_eq!(&buffered.target_buffer()[9..12], &[4, 5, 6]);
    assert_eq!(buffered.frame_buffer(), &vec![0u8; 12]);
}

#[test]
fn pixel_past_buffer_is_refused() {
    let info = geometry(PixelLayout::Rgb, 3, 2, 2, 2);
    let mut display = DisplayType::Simple.new(vec![0u8; 12], info).unwrap();
    assert_eq!(display.set_pixel(Position::new(0, 2), Color::new(1, 1, 1)), Err(DisplayError::PixelOutOfBounds));
    assert_eq!(display.frame_buffer(), &vec![0u8; 12]);
}

#[test]
fn draw_requires_matching_length() {
    let info = geometry(PixelLayout::Rgb, 3, 2, 2, 2);
    let mut display = DisplayType::Buffered.new(vec![0u8; 12], info).unwrap();
    assert_eq!(display.draw(&vec![1u8; 11]), Err(DisplayError::BufferSizeMismatch));
    assert_eq!(display.draw(&vec![1u8; 12]), Ok(()));
    assert_eq!(display.target_buffer(), &vec![1u8; 12]);
    assert_eq!(display.frame_buffer(), &vec![0u8; 12]);
}

#[test]
fn clear_paints_every_pixel() {
    let info = geometry(PixelLayout::Rgb, 3, 2, 1, 2);
    let mut display = DisplayType::Simple.new(vec![0u8; 6], info).unwrap();
    assert_eq!(display.clear(Colors::Aqua.color()), Ok(()));
    assert_eq!(display.frame_buffer(), &vec![0, 255, 255, 0, 255, 255]);
}

#[test]
fn paint_pixels_skips_off_screen_ones() {
    let info = geometry(PixelLayout::Rgb, 3, 2, 1, 3);
    let mut display = DisplayType::Simple.new(vec![0u8; 9], info).unwrap();
    let pixels = vec![(Position::new(2, 0), Color::new(9, 9, 9)), (Position::new(1, 0), Color::new(4, 5, 6))];
    assert_eq!(display.paint_pixels(&pixels), Ok(()));
    assert_eq!(display.frame_buffer(), &vec![0, 0, 0, 4, 5, 6, 0, 0, 0]);
}

#[test]
fn unknown_display_type_is_refused() {
    let info = geometry(PixelLayout::Rgb, 3, 2, 1, 2);
    assert!(matches!(DisplayType::Unknown.new(vec![0u8; 6], info), Err(DisplayError::UnknownDisplayType)));
}

#[test]
fn cells_map_to_pixels_by_font_size() {
    assert_eq!(map_position(Position::new(3, 2), Fonts::Font9x18), Position::new(27, 36));
    assert_eq!(map_position(Position::new(0, 0), Fonts::Font10x20), Position::new(0, 0));
    assert_eq!(map_position(Position::new(usize::MAX, 1), Fonts::Font6x9), Position::new(usize::MAX, 9));
}

#[test]
fn palette_and_fonts() {
    assert_eq!(Colors::Brown.color(), Color::new(165, 42, 42));
    let c: Color = Colors::Navy.into();
    assert_eq!(c, Color::new(0, 0, 128));
    assert_eq!(Fonts::Font7x14B.get_size().width, 7);
    assert_eq!(Fonts::Font7x14B.get_size().height, 14);
    assert_eq!(Fonts::default(), Fonts::Font9x18);
}
