use kernel_display::drivers::{
    DisplayDriverManager, DisplayDriverType, DummyDisplayDriver, GraphicsDisplayDriver, GraphicsDisplayDriverArgs,
    PANIC_HEADER,
};
use kernel_display::error::DisplayError;
use kernel_display::geometry::{Colors, Fonts, Position, Size};
use kernel_display::interrupts::InterruptIndex;
use kernel_display::logging::SerialLoggingLevel;
use kernel_display::manager::{DisplayManager, DisplayMode, DisplayType};
use kernel_display::pixel::{FrameGeometry, PixelLayout};
use kernel_display::text_driver::{TextDisplayDriver, TextDisplayDriverArgs};

fn info() -> FrameGeometry {
    FrameGeometry {
        byte_len: 16 * 8 * 3,
        width: 16,
        height: 8,
        pixel_format: PixelLayout::Bgr,
        bytes_per_pixel: 3,
        stride: 16,
    }
}

fn manager(kind: DisplayType) -> DisplayManager {
    DisplayManager::new(kind, vec![0u8; info().byte_len], info()).unwrap()
}

fn holds_display(d: &DisplayDriverType) -> bool {
    match d {
        DisplayDriverType::Unknown => false,
        DisplayDriverType::Dummy(x) => x.get_size() != Size::new(0, 0),
        DisplayDriverType::Text(x, _) => x.get_size() != Size::new(0, 0),
        DisplayDriverType::Graphics(x, _) => x.get_size() != Size::new(0, 0),
    }
}

#[test]
fn manager_starts_without_driver() {
    let m = manager(DisplayType::Buffered);
    assert_eq!(m.get_display_mode(), DisplayMode::Unknown);
    assert_eq!(m.get_display_type(), DisplayType::Buffered);
    assert_eq!(m.get_size(), Size::new(16, 8));
    assert!(!holds_display(m.get_driver()));
}

#[test]
fn unknown_display_type_fails() {
    assert!(matches!(
        DisplayManager::new(DisplayType::Unknown, vec![0u8; 4], info()),
        Err(DisplayError::UnknownDisplayType)
    ));
}

#[test]
fn same_mode_twice_keeps_one_holder() {
    let mut m = manager(DisplayType::Buffered);
    assert_eq!(m.set_mode(DisplayMode::Dummy), Ok(()));
    assert_eq!(m.set_mode(DisplayMode::Dummy), Ok(()));
    assert_eq!(m.get_display_mode(), DisplayMode::Dummy);
    assert!(holds_display(m.get_driver()));
    assert_eq!(m.clear_screen(), Ok(()));
    assert_eq!(m.draw_all().unwrap().len(), 0);
}

#[test]
fn switching_modes_moves_the_display() {
    let mut m = manager(DisplayType::Buffered);
    m.set_mode(DisplayMode::Text(Fonts::Font6x9)).unwrap();
    assert_eq!(m.get_display_mode(), DisplayMode::Text(Fonts::Font6x9));
    assert!(holds_display(m.get_driver()));
    m.set_mode(DisplayMode::Text(Fonts::Font6x9)).unwrap();
    assert!(holds_display(m.get_driver()));
    if let DisplayDriverType::Text(d, _) = m.get_driver_mut() {
        assert!(d.is_dirty(24, 79));
        d.write_string("42");
    } else {
        panic!("text driver expected");
    }
    let draws = m.draw_all().unwrap();
    assert_eq!(draws.len(), 26);
    m.set_mode(DisplayMode::Unknown).unwrap();
    assert!(!holds_display(m.get_driver()));
    assert_eq!(m.get_size(), Size::new(16, 8));
    m.set_mode(DisplayMode::Dummy).unwrap();
    assert!(holds_display(m.get_driver()));
}

#[test]
fn text_mode_needs_buffered_display() {
    let mut m = manager(DisplayType::Simple);
    m.set_mode(DisplayMode::Dummy).unwrap();
    assert_eq!(m.set_mode(DisplayMode::Text(Fonts::Font9x18)), Err(DisplayError::TextModeRequiresBuffered));
    assert_eq!(m.get_display_mode(), DisplayMode::Dummy);
}

#[test]
fn clear_screen_paints_black_and_publishes() {
    let mut m = manager(DisplayType::Buffered);
    m.set_mode(DisplayMode::Dummy).unwrap();
    assert_eq!(m.present(&vec![(Position::new(0, 0), Colors::White.color())]), Ok(()));
    if let DisplayDriverType::Dummy(d) = m.get_driver() {
        assert_eq!(d.get_size(), Size::new(16, 8));
    }
    assert_eq!(m.clear_screen(), Ok(()));
}

#[test]
fn dummy_driver_without_display_fails() {
    let mut d = DummyDisplayDriver::new();
    assert_eq!(d.draw_all(), Err(DisplayError::NoDisplay));
    assert_eq!(d.clear(Colors::Black.color()), Err(DisplayError::NoDisplay));
    assert!(matches!(d.draw_panic("x"), Err(DisplayError::NoDisplay)));
    assert_eq!(d.get_size(), Size::new(0, 0));
}

#[test]
fn panic_screen_lines() {
    let mut d = DummyDisplayDriver::new();
    d.activate(DisplayType::Simple.new(vec![0u8; info().byte_len], info()).unwrap());
    let draws = d.draw_panic("out of memory").unwrap();
    assert_eq!(draws.len(), 2);
    assert_eq!(draws[0].text, PANIC_HEADER);
    assert_eq!(draws[0].position, Position::new(0, 0));
    assert_eq!(draws[1].text, "out of memory");
    assert_eq!(draws[1].position, Position::new(0, 18));
    assert_eq!(draws[1].text_color, Colors::White.color());
    assert_eq!(draws[1].background_color, None);
    let shown = d.deactivate().unwrap();
    assert_eq!(&shown.frame_buffer()[0..3], &[255, 0, 0]);
}

#[test]
fn graphics_driver_passes_buffer_through() {
    let mut g = GraphicsDisplayDriver::new();
    assert_eq!(g.draw_all(), Err(DisplayError::NoDisplay));
    g.activate(DisplayType::Simple.new(vec![0u8; info().byte_len], info()).unwrap());
    assert_eq!(g.draw_all(), Err(DisplayError::NoBackBuffer));
    g.init(&GraphicsDisplayDriverArgs::new(8, 16));
    assert_eq!(g.draw_all(), Err(DisplayError::BufferSizeMismatch));
    assert_eq!(g.clear(Colors::Red.color()), Ok(()));
    assert_eq!(g.get_size(), Size::new(16, 8));
}

#[test]
fn driver_manager_keeps_display_aside_when_idle() {
    let display = DisplayType::Buffered.new(vec![0u8; info().byte_len], info()).unwrap();
    let mut m = DisplayDriverManager::new(display);
    assert_eq!(m.get_size(), Size::new(16, 8));
    m.set_driver(DisplayDriverType::Dummy(DummyDisplayDriver::new()));
    assert!(holds_display(m.get_driver()));
    m.set_driver(DisplayDriverType::Unknown);
    assert!(!holds_display(m.get_driver()));
    assert_eq!(m.get_size(), Size::new(16, 8));
    assert_eq!(m.clear(Colors::Black.color()), Ok(()));
}

#[test]
fn log_level_tags() {
    assert_eq!(SerialLoggingLevel::Debug.as_str(), "DEBUG");
    assert_eq!(SerialLoggingLevel::Info.as_str(), "INFO");
    assert_eq!(SerialLoggingLevel::Warning.as_str(), "WARNING");
    assert_eq!(SerialLoggingLevel::Error.as_str(), "ERROR");
    assert_eq!(SerialLoggingLevel::Panic.as_str(), "PANIC");
}

#[test]
fn timer_vector() {
    assert_eq!(InterruptIndex::Timer.as_u8(), 32);
    assert_eq!(InterruptIndex::Timer.as_usize(), 32);
}

#[test]
fn mode_and_type_names() {
    assert_eq!(DisplayMode::Text(Fonts::Font6x9).name(), "Text");
    assert_eq!(DisplayType::Buffered.name(), "Buffered");
}

#[test]
fn set_driver_sets_up_a_fresh_text_driver() {
    let display = DisplayType::Buffered.new(vec![0u8; info().byte_len], info()).unwrap();
    let mut m = DisplayDriverManager::new(display);
    m.set_driver(DisplayDriverType::Text(TextDisplayDriver::new(), TextDisplayDriverArgs::new(Fonts::Font7x13)));
    match m.get_driver() {
        DisplayDriverType::Text(d, _) => {
            assert_eq!(d.get_size(), Size::new(16, 8));
            assert!(d.is_dirty(0, 0) && d.is_dirty(24, 79));
            assert_eq!(d.get_cursor_position(), Position::new(0, 0));
            assert_eq!(d.map_position(Position::new(1, 1)), Position::new(7, 13));
        },
        _ => panic!("text driver expected"),
    }
    assert_eq!(m.draw_all().unwrap().len(), 26);
}
