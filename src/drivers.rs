//! The display drivers and the state machine that switches between them,
//! moving the one display from the outgoing driver to the incoming one.

use vstd::prelude::*;
use vstd::string::StringExecFns;
use crate::display::{Display, cleared_and_shown, paint_seq, same_display_kind};
use crate::error::DisplayError;
use crate::geometry::{
    Color, Colors, Fonts, Position, Size, TextAlignment, TextBaseline, TextLineHeight, colors_rgb,
};
use crate::pixel::{FrameGeometry, painted, pixel_bytes, writable};
use crate::render::TextDraw;
use crate::text::{TermState, uniform};
use crate::text_driver::{TextDisplayDriver, TextDisplayDriverArgs, render_pass};

verus! {

/// The first line of the panic screen.
pub const PANIC_HEADER: &'static str = "Kernel Panic -- please reboot your machine! See message below:";

/// A driver that passes the display through: it clears, publishes, and
/// draws the panic screen. It stays usable when the text driver is not.
pub struct DummyDisplayDriver {
    display: Option<Display>,
}

fn size_of(display: &Option<Display>) -> (r: Size)
    ensures
        display is Some ==> r == (Size { width: display.unwrap().info().width, height: display.unwrap().info().height }),
        display is None ==> r == (Size { width: 0, height: 0 }),
{
    match display {
        Some(d) => {
            let info = d.get_info();
            Size::new(info.width, info.height)
        },
        None => Size::new(0, 0),
    }
}

impl DummyDisplayDriver {
    pub closed spec fn held(&self) -> Option<Display> {
        self.display
    }

    pub fn new() -> (r: Self)
        ensures
            r.held() is None,
    {
        Self { display: None }
    }

    /// Clears the display to blue and returns the two lines of the panic
    /// screen, the header and `message`, for the glyph renderer; `present`
    /// then shows them.
    pub fn draw_panic(&mut self, message: &str) -> (r: Result<Vec<TextDraw>, DisplayError>)
        ensures
            same_display_kind(final(self).held(), old(self).held()),
            old(self).held() is None ==> r == Err::<Vec<TextDraw>, DisplayError>(DisplayError::NoDisplay) && final(self).held() is None,
            old(self).held() is Some ==> final(self).held() is Some && (r is Ok <==> writable(old(self).held().unwrap().info())),
            r is Ok ==> {
                let d = old(self).held().unwrap();
                let e = final(self).held().unwrap();
                let t = painted(d.target(), d.info().bytes_per_pixel as int, pixel_bytes(d.info().pixel_format, colors_rgb(Colors::Blue)));
                &&& e.info() == d.info() && e.is_buffered() == d.is_buffered() && e.target() == t
                &&& d.is_buffered() ==> e.front() == d.front()
                &&& r->Ok_0@.len() == 2
                &&& r->Ok_0@[0].text@ == PANIC_HEADER@
                &&& r->Ok_0@[0].position == (Position { x: 0, y: 0 })
                &&& r->Ok_0@[1].text@ == message@
                &&& r->Ok_0@[1].position == (Position { x: 0, y: 18 })
                &&& forall|n: int| 0 <= n < 2 ==> {
                    &&& (#[trigger] r->Ok_0@[n]).text_color == colors_rgb(Colors::White)
                    &&& r->Ok_0@[n].background_color is None
                    &&& r->Ok_0@[n].font == Fonts::Font9x18
                    &&& !r->Ok_0@[n].underline && !r->Ok_0@[n].strikethrough
                    &&& r->Ok_0@[n].baseline == TextBaseline::Top
                    &&& r->Ok_0@[n].alignment == TextAlignment::Left
                    &&& r->Ok_0@[n].line_height == TextLineHeight::Full
                }
            },
    {
        match self.display.as_mut() {
            Some(display) => {
                let res = display.clear(Colors::Blue.color());
                match res {
                    Err(e) => Err(e),
                    Ok(()) => {
                        let mut draws: Vec<TextDraw> = Vec::new();
                        draws.push(TextDraw {
                            text: <String as StringExecFns>::from_str(PANIC_HEADER),
                            position: Position::new(0, 0),
                            text_color: Colors::White.color(),
                            background_color: None,
                            font: Fonts::default(),
                            underline: false,
                            strikethrough: false,
                            baseline: TextBaseline::Top,
                            alignment: TextAlignment::Left,
                            line_height: TextLineHeight::Full,
                        });
                        draws.push(TextDraw {
                            text: <String as StringExecFns>::from_str(message),
                            position: Position::new(0, 18),
                            text_color: Colors::White.color(),
                            background_color: None,
                            font: Fonts::Font9x18,
                            underline: false,
                            strikethrough: false,
                            baseline: TextBaseline::Top,
                            alignment: TextAlignment::Left,
                            line_height: TextLineHeight::Full,
                        });
                        Ok(draws)
                    },
                }
            },
            None => Err(DisplayError::NoDisplay),
        }
    }

    /// Paints the rasterized pixels onto the display and publishes them.
    pub fn present(&mut self, pixels: &Vec<(Position, Color)>) -> (r: Result<(), DisplayError>)
        ensures
            same_display_kind(final(self).held(), old(self).held()),
            old(self).held() is None ==> r == Err::<(), DisplayError>(DisplayError::NoDisplay) && final(self).held() is None,
            old(self).held() is Some ==> final(self).held() is Some && (r is Ok <==> writable(old(self).held().unwrap().info())),
            r is Ok ==> final(self).held().unwrap().front() == paint_seq(old(self).held().unwrap().target(), old(self).held().unwrap().info(), pixels@),
    {
        match self.display.as_mut() {
            Some(display) => display.paint_and_swap(pixels),
            None => Err(DisplayError::NoDisplay),
        }
    }

    /// Publishes what has been drawn.
    pub fn draw_all(&mut self) -> (r: Result<(), DisplayError>)
        ensures
            same_display_kind(final(self).held(), old(self).held()),
            old(self).held() is None ==> r == Err::<(), DisplayError>(DisplayError::NoDisplay) && final(self).held() is None,
            old(self).held() is Some ==> r is Ok && final(self).held() is Some
                && final(self).held().unwrap().front() == old(self).held().unwrap().target()
                && final(self).held().unwrap().target() == old(self).held().unwrap().target()
                && final(self).held().unwrap().info() == old(self).held().unwrap().info(),
    {
        match self.display.as_mut() {
            Some(display) => {
                display.swap();
                Ok(())
            },
            None => Err(DisplayError::NoDisplay),
        }
    }

    /// Clears the display to `color` and publishes it.
    pub fn clear(&mut self, color: Color) -> (r: Result<(), DisplayError>)
        ensures
            same_display_kind(final(self).held(), old(self).held()),
            old(self).held() is None ==> r == Err::<(), DisplayError>(DisplayError::NoDisplay) && final(self).held() is None,
            old(self).held() is Some ==> final(self).held() is Some && (r is Ok <==> writable(old(self).held().unwrap().info())),
            r is Ok ==> cleared_and_shown(final(self).held().unwrap(), old(self).held().unwrap(), color),
    {
        match self.display.as_mut() {
            Some(display) => display.clear_and_swap(color),
            None => Err(DisplayError::NoDisplay),
        }
    }

    pub fn get_size(&self) -> (r: Size)
        ensures
            self.held() is Some ==> r == (Size { width: self.held().unwrap().info().width, height: self.held().unwrap().info().height }),
            self.held() is None ==> r == (Size { width: 0, height: 0 }),
    {
        size_of(&self.display)
    }

    pub fn activate(&mut self, display: Display)
        ensures
            final(self).held() == Some(display),
    {
        self.display = Some(display);
    }

    pub fn deactivate(&mut self) -> (r: Option<Display>)
        ensures
            r == old(self).held(),
            final(self).held() is None,
    {
        self.display.take()
    }
}

/// What the graphics driver is configured with.
pub struct GraphicsDisplayDriverArgs {
    pub display_height: usize,
    pub stride: usize,
}

impl GraphicsDisplayDriverArgs {
    pub fn new(display_height: usize, stride: usize) -> (r: Self)
        ensures
            r.display_height == display_height,
            r.stride == stride,
    {
        Self { display_height, stride }
    }
}

/// A driver that passes a raw pixel buffer through to the display.
pub struct GraphicsDisplayDriver {
    display: Option<Display>,
    back_buffer: Option<Vec<u8>>,
}

impl GraphicsDisplayDriver {
    pub closed spec fn held(&self) -> Option<Display> {
        self.display
    }

    /// The driver's pixel buffer, once initialized.
    pub closed spec fn buffer(&self) -> Option<Seq<u8>> {
        match self.back_buffer {
            Some(b) => Some(b@),
            None => None,
        }
    }

    pub fn new() -> (r: Self)
        ensures
            r.held() is None,
            r.buffer() is None,
    {
        Self { display: None, back_buffer: None }
    }

    /// Sets up an empty pixel buffer with room for a frame of the
    /// configured height and stride.
    pub fn init(&mut self, args: &GraphicsDisplayDriverArgs)
        ensures
            final(self).held() == old(self).held(),
            final(self).buffer() == Some(Seq::<u8>::empty()),
    {
        let wide = crate::render::scale(args.display_height, args.stride);
        let capacity: usize = if wide < usize::MAX { wide } else { 0 };
        let buffer: Vec<u8> = Vec::with_capacity(capacity);
        assert(buffer@ =~= Seq::<u8>::empty());
        self.back_buffer = Some(buffer);
    }

    /// Draws the pixel buffer onto the display.
    pub fn draw_all(&mut self) -> (r: Result<(), DisplayError>)
        ensures
            same_display_kind(final(self).held(), old(self).held()),
            final(self).buffer() == old(self).buffer(),
            final(self).held() is Some == old(self).held() is Some,
            old(self).held() is None ==> r == Err::<(), DisplayError>(DisplayError::NoDisplay),
            old(self).held() is Some && old(self).buffer() is None ==> r == Err::<(), DisplayError>(DisplayError::NoBackBuffer),
            old(self).held() is Some && old(self).buffer() is Some ==> (r is Ok <==> old(self).buffer().unwrap().len() == old(self).held().unwrap().target().len()),
            old(self).held() is Some && old(self).buffer() is Some && r is Err ==> r == Err::<(), DisplayError>(DisplayError::BufferSizeMismatch),
            r is Ok ==> final(self).held().unwrap().drawn(&old(self).held().unwrap(), old(self).buffer().unwrap()),
    {
        match self.display.as_mut() {
            Some(display) => match &self.back_buffer {
                Some(back_buffer) => display.draw(back_buffer),
                None => Err(DisplayError::NoBackBuffer),
            },
            None => Err(DisplayError::NoDisplay),
        }
    }

    /// Paints the display target with `color`.
    pub fn clear(&mut self, color: Color) -> (r: Result<(), DisplayError>)
        ensures
            same_display_kind(final(self).held(), old(self).held()),
            final(self).buffer() == old(self).buffer(),
            old(self).held() is None ==> r == Err::<(), DisplayError>(DisplayError::NoDisplay) && final(self).held() is None,
            old(self).held() is Some ==> final(self).held() is Some && (r is Ok <==> writable(old(self).held().unwrap().info())),
            r is Ok ==> final(self).held().unwrap().drawn(
                &old(self).held().unwrap(),
                painted(old(self).held().unwrap().target(), old(self).held().unwrap().info().bytes_per_pixel as int,
                    pixel_bytes(old(self).held().unwrap().info().pixel_format, color)),
            ),
    {
        match self.display.as_mut() {
            Some(display) => display.clear(color),
            None => Err(DisplayError::NoDisplay),
        }
    }

    pub fn get_size(&self) -> (r: Size)
        ensures
            self.held() is Some ==> r == (Size { width: self.held().unwrap().info().width, height: self.held().unwrap().info().height }),
            self.held() is None ==> r == (Size { width: 0, height: 0 }),
    {
        size_of(&self.display)
    }

    pub fn activate(&mut self, display: Display)
        ensures
            final(self).held() == Some(display),
            final(self).buffer() == old(self).buffer(),
    {
        self.display = Some(display);
    }

    pub fn deactivate(&mut self) -> (r: Option<Display>)
        ensures
            r == old(self).held(),
            final(self).held() is None,
            final(self).buffer() == old(self).buffer(),
    {
        self.display.take()
    }
}

/// The driver in charge of the display, with its configuration.
pub enum DisplayDriverType {
    Unknown,
    Dummy(DummyDisplayDriver),
    Text(TextDisplayDriver, TextDisplayDriverArgs),
    Graphics(GraphicsDisplayDriver, GraphicsDisplayDriverArgs),
}

impl DisplayDriverType {
    /// The display the driver holds.
    pub open spec fn held(&self) -> Option<Display> {
        match self {
            DisplayDriverType::Unknown => None,
            DisplayDriverType::Dummy(d) => d.held(),
            DisplayDriverType::Text(d, _) => d.held(),
            DisplayDriverType::Graphics(d, _) => d.held(),
        }
    }

    /// An active driver is set up: a text driver has its full grid and the
    /// font of its configuration, a graphics driver its pixel buffer.
    pub open spec fn wf(&self) -> bool {
        match self {
            DisplayDriverType::Text(d, a) => d.wf() && d.font_of() == Some(a.font),
            DisplayDriverType::Graphics(g, _) => g.buffer() is Some,
            _ => true,
        }
    }

    /// A driver can be switched to: a text driver has its full grid.
    pub open spec fn ready(&self) -> bool {
        match self {
            DisplayDriverType::Text(d, _) => d.wf(),
            _ => true,
        }
    }

    /// Whether two drivers are of the same kind and configuration.
    pub open spec fn same_kind(&self, other: &DisplayDriverType) -> bool {
        match (self, other) {
            (DisplayDriverType::Unknown, DisplayDriverType::Unknown) => true,
            (DisplayDriverType::Dummy(_), DisplayDriverType::Dummy(_)) => true,
            (DisplayDriverType::Text(_, a), DisplayDriverType::Text(_, b)) => a == b,
            (DisplayDriverType::Graphics(_, a), DisplayDriverType::Graphics(_, b)) => a == b,
            _ => false,
        }
    }

    /// Whether `self` is `driver` after it was set up and activated with
    /// `display`: a text driver takes its font and repaints everything, a
    /// graphics driver gets its pixel buffer, and each holds `display`.
    pub open spec fn activated_from(&self, driver: DisplayDriverType, display: Display) -> bool {
        match (driver, *self) {
            (DisplayDriverType::Unknown, DisplayDriverType::Unknown) => true,
            (DisplayDriverType::Dummy(_), DisplayDriverType::Dummy(d)) => d.held() == Some(display),
            (DisplayDriverType::Text(t0, a0), DisplayDriverType::Text(t, a)) => {
                &&& a == a0
                &&& t.held() == Some(display)
                &&& t.font_of() == Some(a0.font)
                &&& t.term() == (TermState { dirty: uniform(true), ..t0.term() })
                &&& t.blinking() == t0.blinking()
            },
            (DisplayDriverType::Graphics(_, a0), DisplayDriverType::Graphics(g, a)) => {
                &&& a == a0
                &&& g.held() == Some(display)
                &&& g.buffer() == Some(Seq::<u8>::empty())
            },
            _ => false,
        }
    }
}

/// The driver state machine. It owns the one display: the active driver
/// holds it, or, while no driver is active, the manager keeps it aside.
pub struct DisplayDriverManager {
    current_driver: DisplayDriverType,
    spare: Option<Display>,
}

impl DisplayDriverManager {
    pub closed spec fn driver(&self) -> DisplayDriverType {
        self.current_driver
    }

    /// The display while no driver holds it.
    pub closed spec fn spare_of(&self) -> Option<Display> {
        self.spare
    }

    /// How many holders the display has: the manager and the driver.
    pub open spec fn handles(&self) -> int {
        (if self.spare_of() is Some { 1int } else { 0int }) + (if self.driver().held() is Some { 1int } else { 0int })
    }

    /// The display, wherever it is held.
    pub open spec fn display_of(&self) -> Display {
        if self.spare_of() is Some {
            self.spare_of().unwrap()
        } else {
            self.driver().held().unwrap()
        }
    }

    /// Exactly one holder has the display, and the driver is well formed.
    pub open spec fn wf(&self) -> bool {
        &&& self.handles() == 1
        &&& self.driver() is Unknown <==> self.spare_of() is Some
        &&& self.driver().wf()
    }

    /// A manager with no active driver, keeping `display` aside.
    pub fn new(display: Display) -> (r: Self)
        ensures
            r.wf(),
            r.driver() is Unknown,
            r.display_of() == display,
    {
        Self { current_driver: DisplayDriverType::Unknown, spare: Some(display) }
    }

    /// Switches to `driver`: the active driver is deactivated and gives the
    /// display back, then `driver` is set up and activated with it. The
    /// display is held by exactly one party before and after.
    pub fn set_driver(&mut self, driver: DisplayDriverType)
        requires
            old(self).wf(),
            driver.ready(),
            driver.held() is None,
        ensures
            final(self).wf(),
            final(self).display_of() == old(self).display_of(),
            final(self).driver().activated_from(driver, old(self).display_of()),
            driver is Unknown <==> final(self).spare_of() is Some,
    {
        let released = match &mut self.current_driver {
            DisplayDriverType::Dummy(d) => d.deactivate(),
            DisplayDriverType::Text(d, _) => d.deactivate(),
            DisplayDriverType::Graphics(d, _) => d.deactivate(),
            DisplayDriverType::Unknown => None,
        };
        let display = match released {
            Some(d) => d,
            None => self.spare.take().unwrap(),
        };
        self.spare = None;
        self.current_driver = match driver {
            DisplayDriverType::Unknown => {
                self.spare = Some(display);
                DisplayDriverType::Unknown
            },
            DisplayDriverType::Dummy(mut d) => {
                d.activate(display);
                DisplayDriverType::Dummy(d)
            },
            DisplayDriverType::Text(mut d, args) => {
                d.init(&args);
                d.activate(display);
                DisplayDriverType::Text(d, args)
            },
            DisplayDriverType::Graphics(mut d, args) => {
                d.init(&args);
                d.activate(display);
                DisplayDriverType::Graphics(d, args)
            },
        };
    }

    /// Clears the screen to `color` through the active driver.
    pub fn clear(&mut self, color: Color) -> (r: Result<(), DisplayError>)
        requires
            old(self).wf(),
        ensures
            final(self).wf(),
            final(self).driver().same_kind(&old(self).driver()),
            final(self).display_of().info() == old(self).display_of().info(),
            final(self).display_of().is_buffered() == old(self).display_of().is_buffered(),
            old(self).driver() is Unknown ==> r is Ok && *final(self) == *old(self),
            !(old(self).driver() is Unknown) ==> (r is Ok <==> writable(old(self).display_of().info())),
            (old(self).driver() is Dummy || old(self).driver() is Text) && r is Ok ==> cleared_and_shown(final(self).display_of(), old(self).display_of(), color),
            old(self).driver() is Graphics && r is Ok ==> final(self).display_of().drawn(
                &old(self).display_of(),
                painted(old(self).display_of().target(), old(self).display_of().info().bytes_per_pixel as int,
                    pixel_bytes(old(self).display_of().info().pixel_format, color)),
            ),
    {
        match &mut self.current_driver {
            DisplayDriverType::Dummy(d) => d.clear(color),
            DisplayDriverType::Text(d, _) => d.clear(color),
            DisplayDriverType::Graphics(d, _) => d.clear(color),
            DisplayDriverType::Unknown => Ok(()),
        }
    }

    /// The render pass of the active driver: the text driver returns its
    /// draws for the glyph renderer and marks its grid clean; the pass-through
    /// drivers publish or draw their buffer and return no draws.
    pub fn draw_all(&mut self) -> (r: Result<Vec<TextDraw>, DisplayError>)
        requires
            old(self).wf(),
        ensures
            final(self).wf(),
            final(self).driver().same_kind(&old(self).driver()),
            final(self).display_of().info() == old(self).display_of().info(),
            final(self).display_of().is_buffered() == old(self).display_of().is_buffered(),
            !(old(self).driver() is Text) && r is Ok ==> r->Ok_0@.len() == 0,
            old(self).driver() is Unknown ==> r is Ok && *final(self) == *old(self),
            old(self).driver() is Dummy ==> r is Ok && final(self).display_of().front() == old(self).display_of().target()
                && final(self).display_of().target() == old(self).display_of().target(),
            old(self).driver() is Text ==> r is Ok && match (old(self).driver(), final(self).driver()) {
                (DisplayDriverType::Text(t0, _), DisplayDriverType::Text(t, _)) => render_pass(t0, t, r->Ok_0@),
                _ => false,
            },
            old(self).driver() is Graphics ==> match old(self).driver() {
                DisplayDriverType::Graphics(g, _) => {
                    &&& (r is Ok <==> g.buffer().unwrap().len() == old(self).display_of().target().len())
                    &&& r is Ok ==> final(self).display_of().drawn(&old(self).display_of(), g.buffer().unwrap())
                    &&& r is Err ==> r == Err::<Vec<TextDraw>, DisplayError>(DisplayError::BufferSizeMismatch)
                },
                _ => false,
            },
    {
        match &mut self.current_driver {
            DisplayDriverType::Dummy(d) => {
                let res = d.draw_all();
                match res {
                    Ok(()) => Ok(Vec::new()),
                    Err(e) => Err(e),
                }
            },
            DisplayDriverType::Text(d, _) => d.draw_all(),
            DisplayDriverType::Graphics(d, _) => {
                let res = d.draw_all();
                match res {
                    Ok(()) => Ok(Vec::new()),
                    Err(e) => Err(e),
                }
            },
            DisplayDriverType::Unknown => Ok(Vec::new()),
        }
    }

    /// Paints the rasterized pixels of a render pass and publishes them.
    pub fn present(&mut self, pixels: &Vec<(Position, Color)>) -> (r: Result<(), DisplayError>)
        requires
            old(self).wf(),
        ensures
            final(self).wf(),
            final(self).driver().same_kind(&old(self).driver()),
            final(self).display_of().info() == old(self).display_of().info(),
            final(self).display_of().is_buffered() == old(self).display_of().is_buffered(),
            old(self).driver() is Unknown || old(self).driver() is Graphics ==> r is Ok && *final(self) == *old(self),
            old(self).driver() is Dummy || old(self).driver() is Text ==> (r is Ok <==> writable(old(self).display_of().info()))
                && (r is Ok ==> final(self).display_of().front() == paint_seq(old(self).display_of().target(), old(self).display_of().info(), pixels@)),
    {
        match &mut self.current_driver {
            DisplayDriverType::Dummy(d) => d.present(pixels),
            DisplayDriverType::Text(d, _) => d.present(pixels),
            DisplayDriverType::Graphics(_, _) => Ok(()),
            DisplayDriverType::Unknown => Ok(()),
        }
    }

    pub fn get_driver(&self) -> (r: &DisplayDriverType)
        ensures
            *r == self.driver(),
    {
        &self.current_driver
    }

    /// The active driver, for using it directly. A caller that switches the
    /// display out of it breaks the manager's single holder.
    pub fn get_driver_mut(&mut self) -> (r: &mut DisplayDriverType)
        ensures
            *r == old(self).driver(),
            final(self).driver() == *final(r),
            final(self).spare_of() == old(self).spare_of(),
    {
        &mut self.current_driver
    }

    /// The physical frame buffer of the display.
    pub fn frame_buffer(&self) -> (r: &Vec<u8>)
        requires
            self.wf(),
        ensures
            r@ == self.display_of().front(),
    {
        let held = match &self.current_driver {
            DisplayDriverType::Dummy(d) => &d.display,
            DisplayDriverType::Graphics(d, _) => &d.display,
            DisplayDriverType::Text(d, _) => {
                return d.display().unwrap().frame_buffer();
            },
            DisplayDriverType::Unknown => &self.spare,
        };
        held.as_ref().unwrap().frame_buffer()
    }

    /// The geometry of the display.
    pub fn get_info(&self) -> (r: FrameGeometry)
        requires
            self.wf(),
        ensures
            r == self.display_of().info(),
    {
        let held = match &self.current_driver {
            DisplayDriverType::Dummy(d) => &d.display,
            DisplayDriverType::Graphics(d, _) => &d.display,
            DisplayDriverType::Text(d, _) => {
                return d.display_info().unwrap();
            },
            DisplayDriverType::Unknown => &self.spare,
        };
        held.as_ref().unwrap().get_info()
    }

    /// The size in pixels of the display.
    pub fn get_size(&self) -> (r: Size)
        requires
            self.wf(),
        ensures
            r == (Size { width: self.display_of().info().width, height: self.display_of().info().height }),
    {
        match &self.current_driver {
            DisplayDriverType::Dummy(d) => d.get_size(),
            DisplayDriverType::Text(d, _) => d.get_size(),
            DisplayDriverType::Graphics(d, _) => d.get_size(),
            DisplayDriverType::Unknown => size_of(&self.spare),
        }
    }
}

} // verus!

