//! The display manager: creates the display of the requested type and
//! switches display modes through the driver state machine.

use vstd::prelude::*;
use crate::display::{BufferedDisplay, Display, SimpleDisplay, cleared_and_shown, paint_seq};
use crate::drivers::{
    DisplayDriverManager, DisplayDriverType, DummyDisplayDriver, GraphicsDisplayDriver,
    GraphicsDisplayDriverArgs,
};
use crate::error::DisplayError;
use crate::geometry::{Color, Colors, Fonts, Position, Size, colors_rgb};
use crate::pixel::{FrameGeometry, painted, pixel_bytes, writable};
use crate::render::TextDraw;
use crate::text::{TermState, fresh_term, uniform};
use crate::text_driver::{TextDisplayDriver, TextDisplayDriverArgs, render_pass};

verus! {

/// What the screen is used for.
#[derive(Debug, Clone, Copy, PartialEq, Eq, Structural)]
pub enum DisplayMode {
    Unknown,
    Dummy,
    Text(Fonts),
    Graphics,
}

impl DisplayMode {
    /// A fresh, inactive driver for this mode on a frame buffer of `info`.
    pub fn get_driver(self, info: FrameGeometry) -> (r: DisplayDriverType)
        ensures
            r.ready(),
            r.held() is None,
            self is Unknown ==> r is Unknown,
            self is Dummy ==> r is Dummy,
            self is Graphics ==> match r {
                DisplayDriverType::Graphics(_, a) => a.display_height == info.height && a.stride == info.stride,
                _ => false,
            },
            self is Text ==> match r {
                DisplayDriverType::Text(d, a) => {
                    &&& a.font == self->Text_0
                    &&& d.term() == fresh_term()
                    &&& d.font_of() is None
                    &&& !d.blinking()
                },
                _ => false,
            },
    {
        match self {
            DisplayMode::Unknown => DisplayDriverType::Unknown,
            DisplayMode::Dummy => DisplayDriverType::Dummy(DummyDisplayDriver::new()),
            DisplayMode::Text(font) => DisplayDriverType::Text(TextDisplayDriver::new(), TextDisplayDriverArgs::new(font)),
            DisplayMode::Graphics => DisplayDriverType::Graphics(
                GraphicsDisplayDriver::new(),
                GraphicsDisplayDriverArgs::new(info.height, info.stride),
            ),
        }
    }

    /// The mode's name.
    pub fn name(self) -> (r: &'static str)
        ensures
            self is Unknown ==> r@ == "Unknown"@,
            self is Dummy ==> r@ == "Dummy"@,
            self is Text ==> r@ == "Text"@,
            self is Graphics ==> r@ == "Graphics"@,
    {
        match self {
            DisplayMode::Unknown => "Unknown",
            DisplayMode::Dummy => "Dummy",
            DisplayMode::Text(_) => "Text",
            DisplayMode::Graphics => "Graphics",
        }
    }
}

/// How the display publishes frames.
#[derive(Debug, Clone, Copy, PartialEq, Eq, Structural)]
pub enum DisplayType {
    Unknown,
    Simple,
    Buffered,
}

impl DisplayType {
    /// A display of this type over `frame_buffer`.
    pub fn new(&self, frame_buffer: Vec<u8>, frame_buffer_info: FrameGeometry) -> (r: Result<Display, DisplayError>)
        ensures
            *self is Unknown ==> r == Err::<Display, DisplayError>(DisplayError::UnknownDisplayType),
            *self is Simple ==> r is Ok && !r->Ok_0.is_buffered(),
            *self is Buffered ==> r is Ok && r->Ok_0.is_buffered()
                && r->Ok_0.target() == Seq::new(frame_buffer@.len(), |i: int| 0u8),
            r is Ok ==> r->Ok_0.front() == frame_buffer@ && r->Ok_0.info() == frame_buffer_info,
    {
        match self {
            DisplayType::Unknown => Err(DisplayError::UnknownDisplayType),
            DisplayType::Simple => Ok(Display::Simple(SimpleDisplay::new(frame_buffer, frame_buffer_info))),
            DisplayType::Buffered => Ok(Display::Buffered(BufferedDisplay::new(frame_buffer, frame_buffer_info))),
        }
    }

    /// The type's name.
    pub fn name(self) -> (r: &'static str)
        ensures
            self is Unknown ==> r@ == "Unknown"@,
            self is Simple ==> r@ == "Simple"@,
            self is Buffered ==> r@ == "Buffered"@,
    {
        match self {
            DisplayType::Unknown => "Unknown",
            DisplayType::Simple => "Simple",
            DisplayType::Buffered => "Buffered",
        }
    }
}

/// The mode that a driver serves.
pub open spec fn mode_of(d: DisplayDriverType) -> DisplayMode {
    match d {
        DisplayDriverType::Unknown => DisplayMode::Unknown,
        DisplayDriverType::Dummy(_) => DisplayMode::Dummy,
        DisplayDriverType::Text(_, a) => DisplayMode::Text(a.font),
        DisplayDriverType::Graphics(_, _) => DisplayMode::Graphics,
    }
}

pub struct DisplayManager {
    display_type: DisplayType,
    driver_manager: DisplayDriverManager,
}

impl DisplayManager {
    pub closed spec fn drivers(&self) -> DisplayDriverManager {
        self.driver_manager
    }

    pub closed spec fn kind(&self) -> DisplayType {
        self.display_type
    }

    pub open spec fn wf(&self) -> bool {
        &&& self.drivers().wf()
        &&& self.kind() != DisplayType::Unknown
        &&& self.drivers().display_of().is_buffered() == (self.kind() == DisplayType::Buffered)
    }

    /// A manager over a new display of `display_type`, with no driver active.
    pub fn new(display_type: DisplayType, frame_buffer: Vec<u8>, frame_buffer_info: FrameGeometry) -> (r: Result<Self, DisplayError>)
        ensures
            display_type is Unknown ==> r is Err,
            !(display_type is Unknown) ==> r is Ok,
            r is Ok ==> {
                let m = r->Ok_0;
                &&& m.wf()
                &&& m.kind() == display_type
                &&& m.drivers().driver() is Unknown
                &&& m.drivers().display_of().front() == frame_buffer@
                &&& m.drivers().display_of().info() == frame_buffer_info
            },
    {
        let display = display_type.new(frame_buffer, frame_buffer_info)?;
        let driver_manager = DisplayDriverManager::new(display);
        Ok(Self { display_type, driver_manager })
    }

    /// Switches to `display_mode`: the active driver lets go of the display
    /// and a fresh driver for the mode takes it. Text mode needs a buffered
    /// display; on any other it is refused and nothing changes.
    pub fn set_mode(&mut self, display_mode: DisplayMode) -> (r: Result<(), DisplayError>)
        requires
            old(self).wf(),
        ensures
            final(self).wf(),
            display_mode is Text && old(self).kind() != DisplayType::Buffered ==> r == Err::<(), DisplayError>(DisplayError::TextModeRequiresBuffered) && *final(self) == *old(self),
            !(display_mode is Text && old(self).kind() != DisplayType::Buffered) ==> {
                &&& r is Ok
                &&& final(self).kind() == old(self).kind()
                &&& mode_of(final(self).drivers().driver()) == display_mode
                &&& final(self).drivers().handles() == 1
                &&& final(self).drivers().display_of() == old(self).drivers().display_of()
                &&& (display_mode is Unknown) == final(self).drivers().driver().held().is_none()
                &&& display_mode is Text ==> match final(self).drivers().driver() {
                    DisplayDriverType::Text(d, a) => {
                        &&& d.term() == (TermState { dirty: uniform(true), ..fresh_term() })
                        &&& d.held() == Some(old(self).drivers().display_of())
                        &&& d.font_of() == Some(display_mode->Text_0)
                        &&& a.font == display_mode->Text_0
                        &&& !d.blinking()
                    },
                    _ => false,
                }
            },
    {
        let driver = display_mode.get_driver(self.get_info());
        if let DisplayDriverType::Text(..) = driver {
            if self.display_type != DisplayType::Buffered {
                return Err(DisplayError::TextModeRequiresBuffered);
            }
        }
        self.driver_manager.set_driver(driver);
        Ok(())
    }

    /// The physical frame buffer, for copying to the hardware.
    pub fn frame_buffer(&self) -> (r: &Vec<u8>)
        requires
            self.wf(),
        ensures
            r@ == self.drivers().display_of().front(),
    {
        self.driver_manager.frame_buffer()
    }

    /// The geometry of the display.
    pub fn get_info(&self) -> (r: FrameGeometry)
        requires
            self.wf(),
        ensures
            r == self.drivers().display_of().info(),
    {
        self.driver_manager.get_info()
    }

    pub fn get_driver(&self) -> (r: &DisplayDriverType)
        ensures
            *r == self.drivers().driver(),
    {
        self.driver_manager.get_driver()
    }

    /// The active driver, for using it directly.
    pub fn get_driver_mut(&mut self) -> (r: &mut DisplayDriverType)
        ensures
            *r == old(self).drivers().driver(),
            final(self).drivers().driver() == *final(r),
            final(self).drivers().spare_of() == old(self).drivers().spare_of(),
            final(self).kind() == old(self).kind(),
    {
        self.driver_manager.get_driver_mut()
    }

    pub fn get_display_type(&self) -> (r: DisplayType)
        ensures
            r == self.kind(),
    {
        self.display_type
    }

    /// The mode of the active driver.
    pub fn get_display_mode(&self) -> (r: DisplayMode)
        ensures
            r == mode_of(self.drivers().driver()),
    {
        match self.driver_manager.get_driver() {
            DisplayDriverType::Unknown => DisplayMode::Unknown,
            DisplayDriverType::Dummy(_) => DisplayMode::Dummy,
            DisplayDriverType::Text(_, args) => DisplayMode::Text(args.font),
            DisplayDriverType::Graphics(_, _) => DisplayMode::Graphics,
        }
    }

    /// Clears the screen to black through the active driver.
    pub fn clear_screen(&mut self) -> (r: Result<(), DisplayError>)
        requires
            old(self).wf(),
        ensures
            final(self).wf(),
            final(self).kind() == old(self).kind(),
            mode_of(final(self).drivers().driver()) == mode_of(old(self).drivers().driver()),
            old(self).drivers().driver() is Unknown ==> r is Ok && *final(self) == *old(self),
            !(old(self).drivers().driver() is Unknown) ==> (r is Ok <==> writable(old(self).drivers().display_of().info())),
            (old(self).drivers().driver() is Dummy || old(self).drivers().driver() is Text) && r is Ok ==> cleared_and_shown(
                final(self).drivers().display_of(),
                old(self).drivers().display_of(),
                colors_rgb(Colors::Black),
            ),
            old(self).drivers().driver() is Graphics && r is Ok ==> final(self).drivers().display_of().drawn(
                &old(self).drivers().display_of(),
                painted(old(self).drivers().display_of().target(), old(self).drivers().display_of().info().bytes_per_pixel as int,
                    pixel_bytes(old(self).drivers().display_of().info().pixel_format, colors_rgb(Colors::Black))),
            ),
    {
        self.driver_manager.clear(Colors::Black.color())
    }

    /// The render pass of the active driver; see `DisplayDriverManager::draw_all`.
    pub fn draw_all(&mut self) -> (r: Result<Vec<TextDraw>, DisplayError>)
        requires
            old(self).wf(),
        ensures
            final(self).wf(),
            final(self).kind() == old(self).kind(),
            mode_of(final(self).drivers().driver()) == mode_of(old(self).drivers().driver()),
            !(old(self).drivers().driver() is Text) && r is Ok ==> r->Ok_0@.len() == 0,
            old(self).drivers().driver() is Unknown ==> r is Ok && *final(self) == *old(self),
            old(self).drivers().driver() is Text ==> r is Ok && match (old(self).drivers().driver(), final(self).drivers().driver()) {
                (DisplayDriverType::Text(t0, _), DisplayDriverType::Text(t, _)) => render_pass(t0, t, r->Ok_0@),
                _ => false,
            },
            old(self).drivers().driver() is Dummy ==> r is Ok
                && final(self).drivers().display_of().front() == old(self).drivers().display_of().target()
                && final(self).drivers().display_of().target() == old(self).drivers().display_of().target(),
            old(self).drivers().driver() is Graphics ==> match old(self).drivers().driver() {
                DisplayDriverType::Graphics(g, _) => {
                    &&& (r is Ok <==> g.buffer().unwrap().len() == old(self).drivers().display_of().target().len())
                    &&& r is Ok ==> final(self).drivers().display_of().drawn(&old(self).drivers().display_of(), g.buffer().unwrap())
                    &&& r is Err ==> r == Err::<Vec<TextDraw>, DisplayError>(DisplayError::BufferSizeMismatch)
                },
                _ => false,
            },
    {
        self.driver_manager.draw_all()
    }

    /// Paints the rasterized pixels of a render pass and publishes them.
    pub fn present(&mut self, pixels: &Vec<(Position, Color)>) -> (r: Result<(), DisplayError>)
        requires
            old(self).wf(),
        ensures
            final(self).wf(),
            final(self).kind() == old(self).kind(),
            mode_of(final(self).drivers().driver()) == mode_of(old(self).drivers().driver()),
            old(self).drivers().driver() is Dummy || old(self).drivers().driver() is Text ==> (r is Ok <==> writable(old(self).drivers().display_of().info()))
                && (r is Ok ==> final(self).drivers().display_of().front() == paint_seq(old(self).drivers().display_of().target(), old(self).drivers().display_of().info(), pixels@)),
    {
        self.driver_manager.present(pixels)
    }

    /// The size in pixels of the display.
    pub fn get_size(&self) -> (r: Size)
        requires
            self.wf(),
        ensures
            r == (Size { width: self.drivers().display_of().info().width, height: self.drivers().display_of().info().height }),
    {
        self.driver_manager.get_size()
    }
}

} // verus!
