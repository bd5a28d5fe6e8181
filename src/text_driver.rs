//! The text-mode display driver: a terminal grid rendered through the glyph
//! renderer onto the display it holds while active.

use vstd::prelude::*;
use vstd::string::StringExecFns;
use crate::cell::{ColorCode, TextColor, text_color_name};
use crate::dirty::{dirty_regions, labels_regions};
use crate::display::{Display, cleared_and_shown, paint_seq, same_display_kind};
use crate::error::DisplayError;
use crate::geometry::{
    Color, Fonts, Position, Region, Size, TextAlignment, TextBaseline, TextLineHeight, colors_rgb,
};
use crate::pixel::{format_error, writable};
use crate::render::{TextDraw, map_position, screen_of};
use crate::segments::{TextSegment, all_runs, draws_runs, text_segments};
use crate::text::{ScrollDirection, TermState, TextGrid, fresh_term, region_fits, region_within, uniform};

verus! {

/// The RGB value a text color is shown as.
pub open spec fn rgb_of(c: TextColor) -> Color {
    colors_rgb(text_color_name(c))
}

/// Whether `d` draws segment `seg` in `font`.
pub open spec fn renders(d: TextDraw, seg: TextSegment, font: Fonts) -> bool {
    &&& d.text@ == seg.text@
    &&& d.position == screen_of(seg.text_position, font)
    &&& d.text_color == rgb_of(seg.text_color)
    &&& d.background_color == Some(rgb_of(seg.background_color))
    &&& d.font == font
    &&& d.underline == seg.underline
    &&& d.strikethrough == seg.strikethrough
    &&& d.baseline == TextBaseline::Top
    &&& d.alignment == TextAlignment::Left
    &&& d.line_height == TextLineHeight::Full
}

/// Whether `d` draws the cursor of `t` in `font`: a space in the ambient
/// colors, swapped while the cursor blinks.
pub open spec fn renders_cursor(d: TextDraw, t: TermState, blink: bool, font: Fonts) -> bool {
    &&& d.text@ == seq![' ']
    &&& d.position == screen_of(t.cursor, font)
    &&& d.text_color == rgb_of(if blink { t.background_color } else { t.text_color })
    &&& d.background_color == Some(rgb_of(if blink { t.text_color } else { t.background_color }))
    &&& d.font == font
    &&& !d.underline
    &&& !d.strikethrough
    &&& d.baseline == TextBaseline::Top
    &&& d.alignment == TextAlignment::Left
    &&& d.line_height == TextLineHeight::Full
}

/// Whether `regions` are the dirty regions of `t` and `segs` their segments.
pub open spec fn segments_of(t: TermState, regions: Seq<Region>, segs: Seq<TextSegment>) -> bool {
    &&& exists|label: Seq<int>| labels_regions(t.dirty, label, regions)
    &&& draws_runs(t.cells, segs, all_runs(t.cells, regions))
}

/// Whether `draws`, and the step from `old` to `new`, are a render pass of
/// `old`: one draw per segment of its dirty regions, in order, then the
/// cursor; afterwards every cell is clean and nothing else has changed.
pub open spec fn render_pass(old: TextDisplayDriver, new: TextDisplayDriver, draws: Seq<TextDraw>) -> bool {
    let font = old.font_of().unwrap();
    &&& new.moved_to(&old, TermState { dirty: uniform(false), ..old.term() })
    &&& draws.len() >= 1
    &&& exists|regions: Seq<Region>, segs: Seq<TextSegment>| {
        &&& segments_of(old.term(), regions, segs)
        &&& draws.len() == segs.len() + 1
        &&& forall|n: int| 0 <= n < segs.len() ==> renders(#[trigger] draws[n], segs[n], font)
    }
    &&& renders_cursor(draws.last(), old.term(), old.blinking(), font)
}

/// What the text driver is configured with.
pub struct TextDisplayDriverArgs {
    pub font: Fonts,
}

impl TextDisplayDriverArgs {
    pub fn new(font: Fonts) -> (r: Self)
        ensures
            r.font == font,
    {
        Self { font }
    }
}

pub struct TextDisplayDriver {
    display: Option<Display>,
    font: Option<Fonts>,
    grid: TextGrid,
    blink: bool,
}

impl TextDisplayDriver {
    pub closed spec fn term(&self) -> TermState {
        self.grid@
    }

    /// The display this driver holds while it is active.
    pub closed spec fn held(&self) -> Option<Display> {
        self.display
    }

    pub closed spec fn font_of(&self) -> Option<Fonts> {
        self.font
    }

    pub closed spec fn blinking(&self) -> bool {
        self.blink
    }

    pub open spec fn wf(&self) -> bool {
        self.term().sized()
    }

    /// `self` is `old` with the terminal state `t` and all else kept.
    pub open spec fn moved_to(&self, old: &TextDisplayDriver, t: TermState) -> bool {
        &&& self.term() == t
        &&& self.held() == old.held()
        &&& self.font_of() == old.font_of()
        &&& self.blinking() == old.blinking()
    }

    /// A driver with a blank grid, no font and no display.
    pub fn new() -> (r: Self)
        ensures
            r.wf(),
            r.term() == fresh_term(),
            r.term().cells == uniform(crate::text::blank_cell(TextColor::Black)),
            r.term().dirty == uniform(false),
            r.term().cursor == (Position { x: 0, y: 0 }),
            r.term().text_color == TextColor::White,
            r.term().background_color == TextColor::Black,
            !r.term().underline,
            !r.term().strikethrough,
            r.held().is_none(),
            r.font_of().is_none(),
            !r.blinking(),
    {
        Self { display: None, font: None, grid: TextGrid::new(), blink: false }
    }

    /// Takes the font from `args`.
    pub fn init(&mut self, args: &TextDisplayDriverArgs)
        ensures
            final(self).term() == old(self).term(),
            final(self).held() == old(self).held(),
            final(self).font_of() == Some(args.font),
            final(self).blinking() == old(self).blinking(),
    {
        self.font = Some(args.font);
    }

    pub fn write_char(&mut self, character: char)
        requires
            old(self).wf(),
        ensures
            final(self).wf(),
            final(self).moved_to(old(self), old(self).term().step(character)),
    {
        self.grid.write_char(character);
    }

    pub fn write_string(&mut self, text: &str)
        requires
            old(self).wf(),
        ensures
            final(self).wf(),
            final(self).moved_to(old(self), old(self).term().steps(text@)),
    {
        self.grid.write_string(text);
    }

    pub fn write_line(&mut self, text: &str)
        requires
            old(self).wf(),
        ensures
            final(self).wf(),
            final(self).moved_to(old(self), old(self).term().steps(text@).line_fed()),
    {
        self.grid.write_line(text);
    }

    pub fn new_line(&mut self)
        requires
            old(self).wf(),
        ensures
            final(self).wf(),
            final(self).moved_to(old(self), old(self).term().line_fed()),
    {
        self.grid.new_line();
    }

    pub fn set_text_color(&mut self, color: TextColor)
        ensures
            final(self).moved_to(old(self), TermState { text_color: color, ..old(self).term() }),
    {
        self.grid.set_text_color(color);
    }

    pub fn set_background_color(&mut self, color: TextColor)
        ensures
            final(self).moved_to(old(self), TermState { background_color: color, ..old(self).term() }),
    {
        self.grid.set_background_color(color);
    }

    pub fn set_underline(&mut self, underline: bool)
        ensures
            final(self).moved_to(old(self), TermState { underline, ..old(self).term() }),
    {
        self.grid.set_underline(underline);
    }

    pub fn set_strikethrough(&mut self, strikethrough: bool)
        ensures
            final(self).moved_to(old(self), TermState { strikethrough, ..old(self).term() }),
    {
        self.grid.set_strikethrough(strikethrough);
    }

    pub fn move_cursor(&mut self, position: Position)
        ensures
            final(self).moved_to(old(self), TermState { cursor: position, ..old(self).term() }),
    {
        self.grid.move_cursor(position);
    }

    pub fn get_cursor_position(&self) -> (r: Position)
        ensures
            r == self.term().cursor,
    {
        self.grid.get_cursor_position()
    }

    pub fn clear_cell(&mut self, row: usize, col: usize)
        requires
            old(self).wf(),
            row < crate::text::BUFFER_HEIGHT,
            col < crate::text::BUFFER_WIDTH,
        ensures
            final(self).wf(),
            final(self).moved_to(old(self), TermState {
                cells: old(self).term().cells.update(
                    crate::text::cell_index(row as int, col as int),
                    crate::text::blank_cell(old(self).term().background_color),
                ),
                dirty: old(self).term().dirty.update(crate::text::cell_index(row as int, col as int), true),
                ..old(self).term()
            }),
    {
        self.grid.clear_cell(row, col);
    }

    pub fn clear_buffer(&mut self)
        requires
            old(self).wf(),
        ensures
            final(self).wf(),
            final(self).moved_to(old(self), old(self).term().cleared()),
    {
        self.grid.clear_buffer();
    }

    pub fn fill(&mut self, character: char)
        requires
            old(self).wf(),
        ensures
            final(self).wf(),
            final(self).moved_to(old(self), TermState {
                cells: uniform(old(self).term().styled(character)),
                dirty: uniform(true),
                ..old(self).term()
            }),
    {
        self.grid.fill(character);
    }

    pub fn fill_region(&mut self, region: Region, character: char)
        requires
            old(self).wf(),
            region_within(region),
        ensures
            final(self).wf(),
            final(self).moved_to(old(self), TermState {
                cells: Seq::new(
                    crate::text::BUFFER_CELLS as nat,
                    |i: int| if crate::text::in_region(region, i) { old(self).term().styled(character) } else { old(self).term().cells[i] },
                ),
                dirty: Seq::new(
                    crate::text::BUFFER_CELLS as nat,
                    |i: int| crate::text::in_region(region, i) || old(self).term().dirty[i],
                ),
                ..old(self).term()
            }),
    {
        self.grid.fill_region(region, character);
    }

    pub fn scroll(&mut self, lines: usize, direction: ScrollDirection)
        requires
            old(self).wf(),
        ensures
            final(self).wf(),
            final(self).moved_to(old(self), old(self).term().scrolled(lines as int, direction)),
    {
        self.grid.scroll(lines, direction);
    }

    /// Toggles the cursor's blink phase.
    pub fn blink(&mut self)
        ensures
            final(self).term() == old(self).term(),
            final(self).held() == old(self).held(),
            final(self).font_of() == old(self).font_of(),
            final(self).blinking() == !old(self).blinking(),
    {
        self.blink = !self.blink;
    }

    pub fn init_redraw(&mut self)
        requires
            old(self).wf(),
        ensures
            final(self).wf(),
            final(self).moved_to(old(self), TermState { dirty: uniform(true), ..old(self).term() }),
    {
        self.grid.init_redraw();
    }

    pub fn validate_position(&self, position: Position) -> (r: (bool, bool))
        ensures
            r == (position.x < crate::text::BUFFER_WIDTH, position.y < crate::text::BUFFER_HEIGHT),
    {
        crate::text::validate_position(position)
    }

    pub fn validate_region(&self, region: Region) -> (r: bool)
        ensures
            r == region_fits(region),
    {
        crate::text::validate_region(region)
    }

    /// The cell at `row`, `col`.
    pub fn cell_at(&self, row: usize, col: usize) -> (r: crate::cell::ScreenChar)
        requires
            self.wf(),
            row < crate::text::BUFFER_HEIGHT,
            col < crate::text::BUFFER_WIDTH,
        ensures
            r == self.term().cells[crate::text::cell_index(row as int, col as int)],
    {
        self.grid.cells()[row * crate::text::BUFFER_WIDTH + col]
    }

    /// Whether the cell at `row`, `col` is dirty.
    pub fn is_dirty(&self, row: usize, col: usize) -> (r: bool)
        requires
            self.wf(),
            row < crate::text::BUFFER_HEIGHT,
            col < crate::text::BUFFER_WIDTH,
        ensures
            r == self.term().dirty[crate::text::cell_index(row as int, col as int)],
    {
        self.grid.dirty()[row * crate::text::BUFFER_WIDTH + col]
    }

    /// The held display.
    pub fn display(&self) -> (r: Option<&Display>)
        ensures
            r == match self.held() {
                Some(d) => Some(&d),
                None => None::<&Display>,
            },
    {
        self.display.as_ref()
    }

    /// The bounding regions of the groups of dirty cells.
    pub fn get_dirty_regions(&self) -> (r: Vec<Region>)
        requires
            self.wf(),
        ensures
            exists|label: Seq<int>| labels_regions(self.term().dirty, label, r@),
    {
        dirty_regions(self.grid.dirty())
    }

    /// The text segments of the dirty regions.
    pub fn get_text_segments(&self) -> (r: Vec<TextSegment>)
        requires
            self.wf(),
        ensures
            exists|regions: Seq<Region>| segments_of(self.term(), regions, r@),
    {
        let regions = self.get_dirty_regions();
        proof {
            let label = choose|label: Seq<int>| labels_regions(self.term().dirty, label, regions@);
            assert forall|k: int| 0 <= k < regions@.len() implies region_fits(#[trigger] regions@[k]) by {
                assert(labels_regions(self.term().dirty, label, regions@));
            }
        }
        let segments = text_segments(self.grid.cells(), &regions);
        assert(segments_of(self.term(), regions@, segments@));
        segments
    }

    /// The pixel position of cell `text_position` in the driver's font, or
    /// the origin while it has none.
    pub fn map_position(&self, text_position: Position) -> (r: Position)
        ensures
            self.font_of() is Some ==> r == screen_of(text_position, self.font_of().unwrap()),
            self.font_of() is None ==> r == (Position { x: 0, y: 0 }),
    {
        match self.font {
            Some(font) => map_position(text_position, font),
            None => Position::new(0, 0),
        }
    }

    /// The render pass: the draws of every segment of the dirty regions, then
    /// of the cursor, are returned for the glyph renderer and every cell is
    /// marked clean. Without a display or a font it fails and changes nothing.
    pub fn draw_all(&mut self) -> (r: Result<Vec<TextDraw>, DisplayError>)
        requires
            old(self).wf(),
        ensures
            final(self).wf(),
            old(self).held() is None ==> r == Err::<Vec<TextDraw>, DisplayError>(DisplayError::NoDisplay) && *final(self) == *old(self),
            old(self).held() is Some && old(self).font_of() is None ==> r == Err::<Vec<TextDraw>, DisplayError>(DisplayError::NoFont) && *final(self) == *old(self),
            old(self).held() is Some && old(self).font_of() is Some ==> r is Ok && render_pass(*old(self), *final(self), r->Ok_0@),
    {
        if self.display.is_none() {
            return Err(DisplayError::NoDisplay);
        }
        let font = match self.font {
            Some(f) => f,
            None => return Err(DisplayError::NoFont),
        };
        let segments = self.get_text_segments();
        let ghost regions = choose|regions: Seq<Region>| segments_of(self.term(), regions, segments@);
        let mut draws: Vec<TextDraw> = Vec::new();
        let mut i: usize = 0;
        while i < segments.len()
            invariant
                i <= segments@.len(),
                draws@.len() == i,
                self.font == Some(font),
                forall|n: int| 0 <= n < i ==> renders(#[trigger] draws@[n], segments@[n], font),
            decreases segments@.len() - i,
        {
            let segment = &segments[i];
            let d = TextDraw {
                text: segment.text.clone(),
                position: map_position(segment.text_position, font),
                text_color: segment.text_color.color(),
                background_color: Some(segment.background_color.color()),
                font,
                underline: segment.underline,
                strikethrough: segment.strikethrough,
                baseline: TextBaseline::Top,
                alignment: TextAlignment::Left,
                line_height: TextLineHeight::Full,
            };
            draws.push(d);
            i = i + 1;
        }
        let code = ColorCode::new(self.grid.text_color(), self.grid.background_color());
        let shown = if self.blink { code.invert() } else { code };
        proof { reveal_strlit(" "); }
        let cursor = TextDraw {
            text: <String as StringExecFns>::from_str(" "),
            position: map_position(self.grid.get_cursor_position(), font),
            text_color: shown.foreground().color(),
            background_color: Some(shown.background().color()),
            font,
            underline: false,
            strikethrough: false,
            baseline: TextBaseline::Top,
            alignment: TextAlignment::Left,
            line_height: TextLineHeight::Full,
        };
        draws.push(cursor);
        self.grid.clear_dirty();
        proof {
            assert(draws@.last() == cursor);
            assert forall|n: int| 0 <= n < segments@.len() implies renders(#[trigger] draws@[n], segments@[n], font) by {
                assert(draws@[n] == draws@.drop_last()[n]);
            }
            assert(segments_of(old(self).term(), regions, segments@));
            assert(cursor.text@ =~= seq![' ']);
            assert(cursor.position == screen_of(old(self).term().cursor, font));
            assert(cursor.text_color == rgb_of(if old(self).blinking() { old(self).term().background_color } else { old(self).term().text_color }));
            assert(renders_cursor(draws@.last(), old(self).term(), old(self).blinking(), font));
            assert(self.moved_to(old(self), TermState { dirty: uniform(false), ..old(self).term() }));
            assert(render_pass(*old(self), *self, draws@));
        }
        Ok(draws)
    }

    /// Paints the rasterized pixels of the render pass onto the display's
    /// target and publishes the frame.
    pub fn present(&mut self, pixels: &Vec<(Position, Color)>) -> (r: Result<(), DisplayError>)
        ensures
            same_display_kind(final(self).held(), old(self).held()),
            final(self).term() == old(self).term(),
            final(self).font_of() == old(self).font_of(),
            final(self).blinking() == old(self).blinking(),
            old(self).held() is None ==> r == Err::<(), DisplayError>(DisplayError::NoDisplay) && final(self).held() == old(self).held(),
            old(self).held() is Some ==> {
                let d = old(self).held().unwrap();
                let e = final(self).held().unwrap();
                &&& final(self).held() is Some
                &&& (r is Ok <==> writable(d.info()))
                &&& r is Ok ==> e.info() == d.info() && e.is_buffered() == d.is_buffered()
                    && e.front() == paint_seq(d.target(), d.info(), pixels@)
                    && e.target() == paint_seq(d.target(), d.info(), pixels@)
                &&& r is Err ==> e.unchanged(&d) && r == Err::<(), DisplayError>(format_error(d.info()).unwrap())
            },
    {
        match self.display.as_mut() {
            Some(display) => display.paint_and_swap(pixels),
            None => Err(DisplayError::NoDisplay),
        }
    }

    /// Paints the whole display target with `color` and publishes it.
    pub fn clear(&mut self, color: Color) -> (r: Result<(), DisplayError>)
        ensures
            same_display_kind(final(self).held(), old(self).held()),
            final(self).term() == old(self).term(),
            final(self).font_of() == old(self).font_of(),
            final(self).blinking() == old(self).blinking(),
            old(self).held() is None ==> r == Err::<(), DisplayError>(DisplayError::NoDisplay) && final(self).held() == old(self).held(),
            old(self).held() is Some ==> final(self).held() is Some && (r is Ok <==> writable(old(self).held().unwrap().info())),
            r is Ok ==> cleared_and_shown(final(self).held().unwrap(), old(self).held().unwrap(), color),
    {
        match self.display.as_mut() {
            Some(display) => display.clear_and_swap(color),
            None => Err(DisplayError::NoDisplay),
        }
    }

    /// The size in pixels of the display, or zero while none is held.
    pub fn get_size(&self) -> (r: Size)
        ensures
            self.held() is Some ==> r == (Size { width: self.held().unwrap().info().width, height: self.held().unwrap().info().height }),
            self.held() is None ==> r == (Size { width: 0, height: 0 }),
    {
        match &self.display {
            Some(display) => {
                let info = display.get_info();
                Size::new(info.width, info.height)
            },
            None => Size::new(0, 0),
        }
    }

    /// The geometry of the held display.
    pub fn display_info(&self) -> (r: Option<crate::pixel::FrameGeometry>)
        ensures
            self.held() is Some ==> r == Some(self.held().unwrap().info()),
            self.held() is None ==> r is None,
    {
        match &self.display {
            Some(display) => Some(display.get_info()),
            None => None,
        }
    }

    /// Takes hold of `display` and marks the whole grid for repainting.
    pub fn activate(&mut self, display: Display)
        requires
            old(self).wf(),
        ensures
            final(self).wf(),
            final(self).held() == Some(display),
            final(self).term() == (TermState { dirty: uniform(true), ..old(self).term() }),
            final(self).font_of() == old(self).font_of(),
            final(self).blinking() == old(self).blinking(),
    {
        self.display = Some(display);
        self.grid.init_redraw();
    }

    /// Lets go of the display, handing it back.
    pub fn deactivate(&mut self) -> (r: Option<Display>)
        ensures
            r == old(self).held(),
            final(self).held() is None,
            final(self).term() == old(self).term(),
            final(self).font_of() == old(self).font_of(),
            final(self).blinking() == old(self).blinking(),
    {
        self.display.take()
    }
}

} // verus!
