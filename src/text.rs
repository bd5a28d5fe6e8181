//! The character-cell terminal: a fixed grid of packed cells with a parallel
//! dirty map, a cursor, the ambient style of new writes, and the operations
//! that mutate them.

use vstd::prelude::*;
use crate::cell::{
    CharacterAttributes, ColorCode, ScreenChar, TextColor, color_index, stored_code,
};
use crate::geometry::{Position, Region};
use vstd::string::StrSliceExecFns;

verus! {

pub const BUFFER_WIDTH: usize = 80;
pub const BUFFER_HEIGHT: usize = 25;
pub const BUFFER_CELLS: usize = 2000;
/// Columns a tab advances the cursor by.
pub const TAB_WIDTH: usize = 4;

/// The flat index of the cell at `row`, `col`.
pub open spec fn cell_index(row: int, col: int) -> int {
    row * BUFFER_WIDTH + col
}

/// Whether `p` lies on the grid.
pub open spec fn on_grid(p: Position) -> bool {
    p.x < BUFFER_WIDTH && p.y < BUFFER_HEIGHT
}

/// The attribute byte for the two flags.
pub open spec fn attr_byte(underline: bool, strikethrough: bool) -> int {
    (if underline { 1int } else { 0int }) + (if strikethrough { 2int } else { 0int })
}

/// The packed cell for character `c` in colors `fg` on `bg` with the flags.
pub open spec fn cell_of(c: char, fg: TextColor, bg: TextColor, underline: bool, strikethrough: bool) -> ScreenChar {
    ScreenChar(
        (stored_code(c) + (color_index(bg) * 16 + color_index(fg)) * 256 + attr_byte(underline, strikethrough) * 65536) as u32,
    )
}

/// A cleared cell: a space with `bg` as both colors, no attributes.
pub open spec fn blank_cell(bg: TextColor) -> ScreenChar {
    cell_of(' ', bg, bg, false, false)
}

/// The cells after moving every row up by `n`; rows exposed at the bottom
/// hold `blank`.
pub open spec fn scrolled_up(cells: Seq<ScreenChar>, n: int, blank: ScreenChar) -> Seq<ScreenChar> {
    Seq::new(
        BUFFER_CELLS as nat,
        |i: int| if i + n * BUFFER_WIDTH < BUFFER_CELLS { cells[i + n * BUFFER_WIDTH] } else { blank },
    )
}

/// The cells after moving every row down by `n`; rows exposed at the top
/// hold `blank`.
pub open spec fn scrolled_down(cells: Seq<ScreenChar>, n: int, blank: ScreenChar) -> Seq<ScreenChar> {
    Seq::new(
        BUFFER_CELLS as nat,
        |i: int| if i >= n * BUFFER_WIDTH { cells[i - n * BUFFER_WIDTH] } else { blank },
    )
}

/// A grid in which every cell holds `c`.
pub open spec fn uniform<T>(c: T) -> Seq<T> {
    Seq::new(BUFFER_CELLS as nat, |i: int| c)
}

/// Whether `r` lies wholly on the grid, its corner on a cell.
pub open spec fn region_fits(r: Region) -> bool {
    &&& r.position.x < BUFFER_WIDTH
    &&& r.position.y < BUFFER_HEIGHT
    &&& r.position.x + r.size.width <= BUFFER_WIDTH
    &&& r.position.y + r.size.height <= BUFFER_HEIGHT
}

/// Whether the cell at flat index `i` lies in `r`.
pub open spec fn in_region(r: Region, i: int) -> bool {
    &&& r.position.y <= i / (BUFFER_WIDTH as int) < r.position.y + r.size.height
    &&& r.position.x <= i % (BUFFER_WIDTH as int) < r.position.x + r.size.width
}

/// Whether each coordinate of `position` lies on the grid: (column, row).
pub fn validate_position(position: Position) -> (r: (bool, bool))
    ensures
        r == (position.x < BUFFER_WIDTH, position.y < BUFFER_HEIGHT),
{
    (position.x < BUFFER_WIDTH, position.y < BUFFER_HEIGHT)
}

/// Whether `region` lies wholly on the grid.
pub fn validate_region(region: Region) -> (r: bool)
    ensures
        r == region_fits(region),
{
    let (x_valid, y_valid) = validate_position(region.position);
    x_valid && y_valid && region.size.width <= BUFFER_WIDTH - region.position.x
        && region.size.height <= BUFFER_HEIGHT - region.position.y
}

/// Whether `r` ends within the grid: its right edge at most the width and
/// its bottom edge at most the height.
pub open spec fn region_within(r: Region) -> bool {
    r.position.x + r.size.width <= BUFFER_WIDTH && r.position.y + r.size.height <= BUFFER_HEIGHT
}

/// Which way `scroll` moves the rows.
#[derive(Debug, Clone, Copy, PartialEq, Eq, Structural)]
pub enum ScrollDirection {
    Up,
    Down,
}

/// The observable state of a terminal.
pub struct TermState {
    pub cells: Seq<ScreenChar>,
    pub dirty: Seq<bool>,
    pub cursor: Position,
    pub text_color: TextColor,
    pub background_color: TextColor,
    pub underline: bool,
    pub strikethrough: bool,
}

/// The state of a new terminal: black blanks, none dirty, cursor home,
/// white on black without attributes.
pub open spec fn fresh_term() -> TermState {
    TermState {
        cells: uniform(blank_cell(TextColor::Black)),
        dirty: uniform(false),
        cursor: Position { x: 0, y: 0 },
        text_color: TextColor::White,
        background_color: TextColor::Black,
        underline: false,
        strikethrough: false,
    }
}

impl TermState {
    /// Whether both grids have the full length.
    pub open spec fn sized(self) -> bool {
        self.cells.len() == BUFFER_CELLS && self.dirty.len() == BUFFER_CELLS
    }

    /// The cell a character is written as under the ambient style.
    pub open spec fn styled(self, c: char) -> ScreenChar {
        cell_of(c, self.text_color, self.background_color, self.underline, self.strikethrough)
    }

    /// The state after `clear_buffer`: every cell a black blank, cursor home.
    pub open spec fn cleared(self) -> TermState {
        TermState { cells: uniform(blank_cell(TextColor::Black)), cursor: Position { x: 0, y: 0 }, ..self }
    }

    /// The state after `scroll(n, direction)`.
    pub open spec fn scrolled(self, n: int, direction: ScrollDirection) -> TermState {
        if n == 0 {
            self
        } else if n >= BUFFER_HEIGHT {
            self.cleared()
        } else {
            match direction {
                ScrollDirection::Up => TermState {
                    cells: scrolled_up(self.cells, n, blank_cell(self.background_color)),
                    dirty: uniform(true),
                    cursor: Position {
                        x: self.cursor.x,
                        y: if self.cursor.y >= n { (self.cursor.y - n) as usize } else { 0 },
                    },
                    ..self
                },
                ScrollDirection::Down => TermState {
                    cells: scrolled_down(self.cells, n, blank_cell(self.background_color)),
                    dirty: uniform(true),
                    ..self
                },
            }
        }
    }
}

/// Where a printable character written at cursor `c` lands, and how many
/// single-line scrolls come first: past the right edge it wraps to the next
/// row; below the last row the grid scrolls up until it fits.
pub open spec fn landing(c: Position) -> (int, Position) {
    if c.x < BUFFER_WIDTH && c.y < BUFFER_HEIGHT {
        (0, c)
    } else if c.x >= BUFFER_WIDTH && c.y + 1 < BUFFER_HEIGHT {
        (0, Position { x: 0, y: (c.y + 1) as usize })
    } else if c.x < BUFFER_WIDTH {
        (c.y - BUFFER_HEIGHT + 1, Position { x: c.x, y: (BUFFER_HEIGHT - 1) as usize })
    } else {
        (c.y - BUFFER_HEIGHT + 2, Position { x: 0, y: (BUFFER_HEIGHT - 1) as usize })
    }
}

impl TermState {
    /// The state after writing the cell `sc` at the cursor.
    pub open spec fn put(self, sc: ScreenChar) -> TermState {
        let k = landing(self.cursor).0;
        let t = landing(self.cursor).1;
        let cells = if k == 0 { self.cells } else { scrolled_up(self.cells, k, blank_cell(self.background_color)) };
        let dirty = if k == 0 { self.dirty } else { uniform(true) };
        TermState {
            cells: cells.update(cell_index(t.y as int, t.x as int), sc),
            dirty: dirty.update(cell_index(t.y as int, t.x as int), true),
            cursor: Position { x: (t.x + 1) as usize, y: t.y },
            ..self
        }
    }

    /// The state after a line feed: column 0 of the next row; on the last
    /// row (or below it) the grid scrolls up one line first.
    pub open spec fn line_fed(self) -> TermState {
        if self.cursor.y + 1 < BUFFER_HEIGHT {
            TermState { cursor: Position { x: 0, y: (self.cursor.y + 1) as usize }, ..self }
        } else {
            TermState {
                cursor: Position { x: 0, y: (BUFFER_HEIGHT - 1) as usize },
                ..self.scrolled(1, ScrollDirection::Up)
            }
        }
    }

    /// The state after `write_char(c)`.
    pub open spec fn step(self, c: char) -> TermState {
        if c == '\n' {
            self.line_fed()
        } else if c == '\r' {
            TermState { cursor: Position { x: 0, y: self.cursor.y }, ..self }
        } else if c == '\t' {
            TermState {
                cursor: Position {
                    x: if self.cursor.x + TAB_WIDTH <= usize::MAX { (self.cursor.x + TAB_WIDTH) as usize } else { usize::MAX },
                    y: self.cursor.y,
                },
                ..self
            }
        } else {
            self.put(self.styled(c))
        }
    }

    /// The state after writing each character of `cs` in turn.
    pub open spec fn steps(self, cs: Seq<char>) -> TermState
        decreases cs.len(),
    {
        if cs.len() == 0 {
            self
        } else {
            self.steps(cs.drop_last()).step(cs.last())
        }
    }
}

/// Scrolling up by `a` lines and then by one more is scrolling by `a + 1`.
proof fn lemma_scroll_up_compose(cells: Seq<ScreenChar>, a: int, blank: ScreenChar)
    requires
        a >= 0,
    ensures
        scrolled_up(scrolled_up(cells, a, blank), 1, blank) == scrolled_up(cells, a + 1, blank),
{
    assert(scrolled_up(scrolled_up(cells, a, blank), 1, blank) =~= scrolled_up(cells, a + 1, blank));
}

/// The cell grid of the terminal driver, with the ambient style of writes.
pub struct TextGrid {
    text_buffer: Vec<ScreenChar>,
    dirty_buffer: Vec<bool>,
    text_cursor: Position,
    text_color: TextColor,
    background_color: TextColor,
    underline: bool,
    strikethrough: bool,
}

impl View for TextGrid {
    type V = TermState;

    closed spec fn view(&self) -> TermState {
        TermState {
            cells: self.text_buffer@,
            dirty: self.dirty_buffer@,
            cursor: self.text_cursor,
            text_color: self.text_color,
            background_color: self.background_color,
            underline: self.underline,
            strikethrough: self.strikethrough,
        }
    }
}

impl TextGrid {
    /// A grid of black blanks, none dirty, cursor home, white on black.
    pub fn new() -> (r: Self)
        ensures
            r@ == fresh_term(),
            r@.sized(),
            r@.cells == uniform(blank_cell(TextColor::Black)),
            r@.dirty == uniform(false),
            r@.cursor == (Position { x: 0, y: 0 }),
            r@.text_color == TextColor::White,
            r@.background_color == TextColor::Black,
            !r@.underline,
            !r@.strikethrough,
    {
        let blank = ScreenChar::new(' ', ColorCode::new(TextColor::Black, TextColor::Black), CharacterAttributes::new(false, false));
        let text_buffer = vec![blank; BUFFER_CELLS];
        let dirty_buffer = vec![false; BUFFER_CELLS];
        let r = Self {
            text_buffer,
            dirty_buffer,
            text_cursor: Position::new(0, 0),
            text_color: TextColor::White,
            background_color: TextColor::Black,
            underline: false,
            strikethrough: false,
        };
        assert(r@.cells =~= uniform(blank_cell(TextColor::Black)));
        assert(r@.dirty =~= uniform(false));
        r
    }

    pub fn cells(&self) -> (r: &Vec<ScreenChar>)
        ensures
            r@ == self@.cells,
    {
        &self.text_buffer
    }

    pub fn dirty(&self) -> (r: &Vec<bool>)
        ensures
            r@ == self@.dirty,
    {
        &self.dirty_buffer
    }

    pub fn set_text_color(&mut self, color: TextColor)
        ensures
            final(self)@ == (TermState { text_color: color, ..old(self)@ }),
    {
        self.text_color = color;
    }

    pub fn set_background_color(&mut self, color: TextColor)
        ensures
            final(self)@ == (TermState { background_color: color, ..old(self)@ }),
    {
        self.background_color = color;
    }

    pub fn set_underline(&mut self, underline: bool)
        ensures
            final(self)@ == (TermState { underline, ..old(self)@ }),
    {
        self.underline = underline;
    }

    pub fn set_strikethrough(&mut self, strikethrough: bool)
        ensures
            final(self)@ == (TermState { strikethrough, ..old(self)@ }),
    {
        self.strikethrough = strikethrough;
    }

    pub fn move_cursor(&mut self, position: Position)
        ensures
            final(self)@ == (TermState { cursor: position, ..old(self)@ }),
    {
        self.text_cursor = position;
    }

    pub fn get_cursor_position(&self) -> (r: Position)
        ensures
            r == self@.cursor,
    {
        self.text_cursor
    }

    pub fn text_color(&self) -> (r: TextColor)
        ensures
            r == self@.text_color,
    {
        self.text_color
    }

    pub fn background_color(&self) -> (r: TextColor)
        ensures
            r == self@.background_color,
    {
        self.background_color
    }

    fn blank(&self) -> (r: ScreenChar)
        ensures
            r == blank_cell(self@.background_color),
    {
        ScreenChar::new(' ', ColorCode::new(self.background_color, self.background_color), CharacterAttributes::new(false, false))
    }

    /// Resets the cell at `row`, `col` to a blank in the current background
    /// and marks it dirty.
    pub fn clear_cell(&mut self, row: usize, col: usize)
        requires
            old(self)@.sized(),
            row < BUFFER_HEIGHT,
            col < BUFFER_WIDTH,
        ensures
            final(self)@ == (TermState {
                cells: old(self)@.cells.update(cell_index(row as int, col as int), blank_cell(old(self)@.background_color)),
                dirty: old(self)@.dirty.update(cell_index(row as int, col as int), true),
                ..old(self)@
            }),
    {
        let index = row * BUFFER_WIDTH + col;
        let blank = self.blank();
        self.text_buffer[index] = blank;
        self.dirty_buffer[index] = true;
    }

    /// Sets every cell to a black blank and moves the cursor home. The dirty
    /// map is left as it is.
    pub fn clear_buffer(&mut self)
        requires
            old(self)@.sized(),
        ensures
            final(self)@ == old(self)@.cleared(),
            final(self)@.sized(),
    {
        let blank = ScreenChar::new(' ', ColorCode::new(TextColor::Black, TextColor::Black), CharacterAttributes::new(false, false));
        let mut i: usize = 0;
        while i < BUFFER_CELLS
            invariant
                self.text_buffer@.len() == BUFFER_CELLS,
                self.dirty_buffer@ == old(self)@.dirty,
                self.text_cursor == old(self)@.cursor,
                self.text_color == old(self)@.text_color,
                self.background_color == old(self)@.background_color,
                self.underline == old(self)@.underline,
                self.strikethrough == old(self)@.strikethrough,
                blank == blank_cell(TextColor::Black),
                i <= BUFFER_CELLS,
                forall|j: int| 0 <= j < i ==> self.text_buffer@[j] == blank,
            decreases BUFFER_CELLS - i,
        {
            self.text_buffer[i] = blank;
            i = i + 1;
        }
        self.text_cursor = Position::new(0, 0);
        assert(self@.cells =~= uniform(blank_cell(TextColor::Black)));
    }

    /// Marks every cell dirty, so that the next render repaints the grid.
    pub fn init_redraw(&mut self)
        requires
            old(self)@.sized(),
        ensures
            final(self)@ == (TermState { dirty: uniform(true), ..old(self)@ }),
    {
        let mut i: usize = 0;
        while i < BUFFER_CELLS
            invariant
                self.dirty_buffer@.len() == BUFFER_CELLS,
                self.text_buffer@ == old(self)@.cells,
                self.text_cursor == old(self)@.cursor,
                self.text_color == old(self)@.text_color,
                self.background_color == old(self)@.background_color,
                self.underline == old(self)@.underline,
                self.strikethrough == old(self)@.strikethrough,
                i <= BUFFER_CELLS,
                forall|j: int| 0 <= j < i ==> self.dirty_buffer@[j],
            decreases BUFFER_CELLS - i,
        {
            self.dirty_buffer[i] = true;
            i = i + 1;
        }
        assert(self@.dirty =~= uniform(true));
    }

    /// Marks every cell clean.
    pub fn clear_dirty(&mut self)
        requires
            old(self)@.sized(),
        ensures
            final(self)@ == (TermState { dirty: uniform(false), ..old(self)@ }),
    {
        let mut i: usize = 0;
        while i < BUFFER_CELLS
            invariant
                self.dirty_buffer@.len() == BUFFER_CELLS,
                self.text_buffer@ == old(self)@.cells,
                self.text_cursor == old(self)@.cursor,
                self.text_color == old(self)@.text_color,
                self.background_color == old(self)@.background_color,
                self.underline == old(self)@.underline,
                self.strikethrough == old(self)@.strikethrough,
                i <= BUFFER_CELLS,
                forall|j: int| 0 <= j < i ==> !self.dirty_buffer@[j],
            decreases BUFFER_CELLS - i,
        {
            self.dirty_buffer[i] = false;
            i = i + 1;
        }
        assert(self@.dirty =~= uniform(false));
    }

    /// Moves the rows by `lines` in `direction`. Rows that enter are
    /// cleared to the current background, and every row is marked dirty;
    /// scrolling up moves the cursor up with the text. Scrolling by the
    /// grid's height or more clears the grid instead.
    pub fn scroll(&mut self, lines: usize, direction: ScrollDirection)
        requires
            old(self)@.sized(),
        ensures
            final(self)@ == old(self)@.scrolled(lines as int, direction),
            final(self)@.sized(),
    {
        if lines == 0 {
            return;
        }
        if lines >= BUFFER_HEIGHT {
            self.clear_buffer();
            return;
        }
        let ghost old_cells = self.text_buffer@;
        let blank = self.blank();
        let shift: usize = lines * BUFFER_WIDTH;
        match direction {
            ScrollDirection::Up => {
                let end: usize = BUFFER_CELLS - shift;
                let mut i: usize = 0;
                while i < end
                    invariant
                        self.text_buffer@.len() == BUFFER_CELLS,
                        self.dirty_buffer@.len() == BUFFER_CELLS,
                        self.text_cursor == old(self)@.cursor,
                        self.text_color == old(self)@.text_color,
                        self.background_color == old(self)@.background_color,
                        self.underline == old(self)@.underline,
                        self.strikethrough == old(self)@.strikethrough,
                        old_cells == old(self)@.cells,
                        shift == lines * BUFFER_WIDTH,
                        end == BUFFER_CELLS - shift,
                        i <= end,
                        forall|j: int| 0 <= j < i ==> self.text_buffer@[j] == old_cells[j + shift],
                        forall|j: int| i <= j < BUFFER_CELLS ==> self.text_buffer@[j] == old_cells[j],
                        forall|j: int| 0 <= j < i ==> self.dirty_buffer@[j],
                    decreases end - i,
                {
                    let moved = self.text_buffer[i + shift];
                    self.text_buffer[i] = moved;
                    self.dirty_buffer[i] = true;
                    i = i + 1;
                }
                while i < BUFFER_CELLS
                    invariant
                        self.text_buffer@.len() == BUFFER_CELLS,
                        self.dirty_buffer@.len() == BUFFER_CELLS,
                        self.text_cursor == old(self)@.cursor,
                        self.text_color == old(self)@.text_color,
                        self.background_color == old(self)@.background_color,
                        self.underline == old(self)@.underline,
                        self.strikethrough == old(self)@.strikethrough,
                        old_cells == old(self)@.cells,
                        blank == blank_cell(old(self)@.background_color),
                        end <= i <= BUFFER_CELLS,
                        end == BUFFER_CELLS - shift,
                        forall|j: int| 0 <= j < end ==> self.text_buffer@[j] == old_cells[j + shift],
                        forall|j: int| end <= j < i ==> self.text_buffer@[j] == blank,
                        forall|j: int| 0 <= j < i ==> self.dirty_buffer@[j],
                    decreases BUFFER_CELLS - i,
                {
                    self.text_buffer[i] = blank;
                    self.dirty_buffer[i] = true;
                    i = i + 1;
                }
                let y = if self.text_cursor.y >= lines { self.text_cursor.y - lines } else { 0 };
                self.text_cursor = Position::new(self.text_cursor.x, y);
                assert(self@.cells =~= scrolled_up(old_cells, lines as int, blank));
                assert(self@.dirty =~= uniform(true));
            },
            ScrollDirection::Down => {
                let mut i: usize = BUFFER_CELLS;
                while i > shift
                    invariant
                        self.text_buffer@.len() == BUFFER_CELLS,
                        self.dirty_buffer@.len() == BUFFER_CELLS,
                        self.text_cursor == old(self)@.cursor,
                        self.text_color == old(self)@.text_color,
                        self.background_color == old(self)@.background_color,
                        self.underline == old(self)@.underline,
                        self.strikethrough == old(self)@.strikethrough,
                        old_cells == old(self)@.cells,
                        shift == lines * BUFFER_WIDTH,
                        shift <= i <= BUFFER_CELLS,
                        forall|j: int| i <= j < BUFFER_CELLS ==> self.text_buffer@[j] == old_cells[j - shift],
                        forall|j: int| 0 <= j < i ==> self.text_buffer@[j] == old_cells[j],
                        forall|j: int| i <= j < BUFFER_CELLS ==> self.dirty_buffer@[j],
                    decreases i,
                {
                    i = i - 1;
                    let moved = self.text_buffer[i - shift];
                    self.text_buffer[i] = moved;
                    self.dirty_buffer[i] = true;
                }
                let mut k: usize = 0;
                while k < shift
                    invariant
                        self.text_buffer@.len() == BUFFER_CELLS,
                        self.dirty_buffer@.len() == BUFFER_CELLS,
                        self.text_cursor == old(self)@.cursor,
                        self.text_color == old(self)@.text_color,
                        self.background_color == old(self)@.background_color,
                        self.underline == old(self)@.underline,
                        self.strikethrough == old(self)@.strikethrough,
                        old_cells == old(self)@.cells,
                        blank == blank_cell(old(self)@.background_color),
                        shift == lines * BUFFER_WIDTH,
                        shift < BUFFER_CELLS,
                        k <= shift,
                        forall|j: int| shift <= j < BUFFER_CELLS ==> self.text_buffer@[j] == old_cells[j - shift],
                        forall|j: int| 0 <= j < k ==> self.text_buffer@[j] == blank,
                        forall|j: int| shift <= j < BUFFER_CELLS ==> self.dirty_buffer@[j],
                        forall|j: int| 0 <= j < k ==> self.dirty_buffer@[j],
                    decreases shift - k,
                {
                    self.text_buffer[k] = blank;
                    self.dirty_buffer[k] = true;
                    k = k + 1;
                }
                assert(self@.cells =~= scrolled_down(old_cells, lines as int, blank));
                assert(self@.dirty =~= uniform(true));
            },
        }
    }

    /// Writes `character` at `position` and marks that cell dirty.
    fn write_at(&mut self, character: ScreenChar, position: Position)
        requires
            old(self)@.sized(),
            on_grid(position),
        ensures
            final(self)@ == (TermState {
                cells: old(self)@.cells.update(cell_index(position.y as int, position.x as int), character),
                dirty: old(self)@.dirty.update(cell_index(position.y as int, position.x as int), true),
                ..old(self)@
            }),
    {
        let index = position.y * BUFFER_WIDTH + position.x;
        self.text_buffer[index] = character;
        self.dirty_buffer[index] = true;
    }

    /// Writes `character` at the cursor: past the right edge it wraps to the
    /// next row; below the last row the grid scrolls up a line at a time
    /// until the cell fits. The cursor then stands right of the cell.
    fn write(&mut self, character: ScreenChar)
        requires
            old(self)@.sized(),
        ensures
            final(self)@ == old(self)@.put(character),
            final(self)@.sized(),
    {
        let ghost s0 = self@;
        let ghost blank = blank_cell(s0.background_color);
        let ghost mut j: int = 0;
        let mut new_position = self.text_cursor;
        loop
            invariant
                self@.sized(),
                s0.sized(),
                blank == blank_cell(self@.background_color),
                j >= 0,
                self@.cells == (if j == 0 { s0.cells } else { scrolled_up(s0.cells, j, blank) }),
                self@.dirty == (if j == 0 { s0.dirty } else { uniform(true) }),
                self@ == (TermState { cells: self@.cells, dirty: self@.dirty, cursor: self@.cursor, ..s0 }),
                self@.cursor.x == s0.cursor.x,
                self@.cursor.y == s0.cursor.y - j,
                landing(s0.cursor) == (j + landing(self@.cursor).0, landing(self@.cursor).1),
                new_position == self@.cursor || (self@.cursor.x >= BUFFER_WIDTH && self@.cursor.y < BUFFER_HEIGHT
                    && new_position == (Position { x: 0, y: (self@.cursor.y + 1) as usize })),
            ensures
                on_grid(new_position),
            decreases 2 * self@.cursor.y + (if new_position == self@.cursor { 1int } else { 0int }),
        {
            let x_valid = new_position.x < BUFFER_WIDTH;
            let y_valid = new_position.y < BUFFER_HEIGHT;
            if x_valid && y_valid {
                break;
            } else if y_valid {
                new_position.x = 0;
                new_position.y = new_position.y + 1;
            } else {
                let ghost before = self@;
                self.scroll(1, ScrollDirection::Up);
                proof {
                    lemma_scroll_up_compose(s0.cells, j, blank);
                    if j == 0 {
                        assert(scrolled_up(s0.cells, 0, blank) =~= s0.cells);
                    }
                    j = j + 1;
                }
                new_position = self.text_cursor;
            }
        }
        self.write_at(character, new_position);
        self.text_cursor = Position::new(new_position.x + 1, new_position.y);
        proof {
            if j > 0 {
                assert(self@.dirty =~= uniform::<bool>(true).update(
                    cell_index(landing(s0.cursor).1.y as int, landing(s0.cursor).1.x as int), true));
            }
        }
        assert(self@ == s0.put(character));
    }

    /// Writes one character: a line feed, carriage return or tab moves the
    /// cursor; any other character is stored at the cursor in the ambient
    /// style and marked dirty.
    pub fn write_char(&mut self, character: char)
        requires
            old(self)@.sized(),
        ensures
            final(self)@ == old(self)@.step(character),
            final(self)@.sized(),
    {
        if character == '\n' {
            self.new_line();
        } else if character == '\r' {
            self.move_cursor(Position::new(0, self.text_cursor.y));
        } else if character == '\t' {
            let x = if self.text_cursor.x <= usize::MAX - TAB_WIDTH { self.text_cursor.x + TAB_WIDTH } else { usize::MAX };
            self.move_cursor(Position::new(x, self.text_cursor.y));
        } else {
            let sc = ScreenChar::new(
                character,
                ColorCode::new(self.text_color, self.background_color),
                CharacterAttributes::new(self.underline, self.strikethrough),
            );
            self.write(sc);
        }
    }

    /// Writes each character of `text` in turn.
    pub fn write_string(&mut self, text: &str)
        requires
            old(self)@.sized(),
        ensures
            final(self)@ == old(self)@.steps(text@),
            final(self)@.sized(),
    {
        let n = text.unicode_len();
        let mut i: usize = 0;
        while i < n
            invariant
                n == text@.len(),
                i <= n,
                self@.sized(),
                self@ == old(self)@.steps(text@.take(i as int)),
            decreases n - i,
        {
            let c = text.get_char(i);
            self.write_char(c);
            proof {
                assert(text@.take(i as int + 1).drop_last() =~= text@.take(i as int));
            }
            i = i + 1;
        }
        assert(text@.take(n as int) =~= text@);
    }

    /// Writes `text`, then a line feed.
    pub fn write_line(&mut self, text: &str)
        requires
            old(self)@.sized(),
        ensures
            final(self)@ == old(self)@.steps(text@).line_fed(),
            final(self)@.sized(),
    {
        self.write_string(text);
        self.new_line();
    }

    /// Moves the cursor to column 0 of the next row, scrolling up one line
    /// when it is on the last row or below.
    pub fn new_line(&mut self)
        requires
            old(self)@.sized(),
        ensures
            final(self)@ == old(self)@.line_fed(),
            final(self)@.sized(),
    {
        if self.text_cursor.y < BUFFER_HEIGHT - 1 {
            self.move_cursor(Position::new(0, self.text_cursor.y + 1));
        } else {
            self.scroll(1, ScrollDirection::Up);
            self.move_cursor(Position::new(0, BUFFER_HEIGHT - 1));
        }
    }

    /// Fills every cell with `character` in the ambient style and marks all
    /// of them dirty.
    pub fn fill(&mut self, character: char)
        requires
            old(self)@.sized(),
        ensures
            final(self)@ == (TermState { cells: uniform(old(self)@.styled(character)), dirty: uniform(true), ..old(self)@ }),
    {
        let screen_char = ScreenChar::new(
            character,
            ColorCode::new(self.text_color, self.background_color),
            CharacterAttributes::new(self.underline, self.strikethrough),
        );
        let mut i: usize = 0;
        while i < BUFFER_CELLS
            invariant
                self.text_buffer@.len() == BUFFER_CELLS,
                self.dirty_buffer@.len() == BUFFER_CELLS,
                self.text_cursor == old(self)@.cursor,
                self.text_color == old(self)@.text_color,
                self.background_color == old(self)@.background_color,
                self.underline == old(self)@.underline,
                self.strikethrough == old(self)@.strikethrough,
                screen_char == old(self)@.styled(character),
                i <= BUFFER_CELLS,
                forall|j: int| 0 <= j < i ==> self.text_buffer@[j] == screen_char,
                forall|j: int| 0 <= j < i ==> self.dirty_buffer@[j],
            decreases BUFFER_CELLS - i,
        {
            self.text_buffer[i] = screen_char;
            self.dirty_buffer[i] = true;
            i = i + 1;
        }
        assert(self@.cells =~= uniform(old(self)@.styled(character)));
        assert(self@.dirty =~= uniform(true));
    }

    /// Fills the cells of `region` with `character` in the ambient style and
    /// marks them dirty.
    pub fn fill_region(&mut self, region: Region, character: char)
        requires
            old(self)@.sized(),
            region_within(region),
        ensures
            final(self)@ == (TermState {
                cells: Seq::new(BUFFER_CELLS as nat, |i: int| if in_region(region, i) { old(self)@.styled(character) } else { old(self)@.cells[i] }),
                dirty: Seq::new(BUFFER_CELLS as nat, |i: int| in_region(region, i) || old(self)@.dirty[i]),
                ..old(self)@
            }),
    {
        let screen_char = ScreenChar::new(
            character,
            ColorCode::new(self.text_color, self.background_color),
            CharacterAttributes::new(self.underline, self.strikethrough),
        );
        let x0 = region.position.x;
        let x1 = region.position.x + region.size.width;
        let y0 = region.position.y;
        let y1 = region.position.y + region.size.height;
        let ghost old_cells = self.text_buffer@;
        let ghost old_dirty = self.dirty_buffer@;
        let mut row: usize = y0;
        while row < y1
            invariant
                self.text_buffer@.len() == BUFFER_CELLS,
                self.dirty_buffer@.len() == BUFFER_CELLS,
                self.text_cursor == old(self)@.cursor,
                self.text_color == old(self)@.text_color,
                self.background_color == old(self)@.background_color,
                self.underline == old(self)@.underline,
                self.strikethrough == old(self)@.strikethrough,
                old_cells == old(self)@.cells,
                old_dirty == old(self)@.dirty,
                screen_char == old(self)@.styled(character),
                region_within(region),
                x0 == region.position.x,
                x1 == region.position.x + region.size.width,
                y0 == region.position.y,
                y1 == region.position.y + region.size.height,
                y0 <= row <= y1,
                forall|j: int| 0 <= j < BUFFER_CELLS ==> #[trigger] self.text_buffer@[j] == (if y0 <= j / 80 < row && x0 <= j % 80 < x1 { screen_char } else { old_cells[j] }),
                forall|j: int| 0 <= j < BUFFER_CELLS ==> #[trigger] self.dirty_buffer@[j] == ((y0 <= j / 80 < row && x0 <= j % 80 < x1) || old_dirty[j]),
            decreases y1 - row,
        {
            let mut col: usize = x0;
            while col < x1
                invariant
                    self.text_buffer@.len() == BUFFER_CELLS,
                    self.dirty_buffer@.len() == BUFFER_CELLS,
                    self.text_cursor == old(self)@.cursor,
                    self.text_color == old(self)@.text_color,
                    self.background_color == old(self)@.background_color,
                    self.underline == old(self)@.underline,
                    self.strikethrough == old(self)@.strikethrough,
                    region_within(region),
                    x0 == region.position.x,
                    x1 == region.position.x + region.size.width,
                    y0 == region.position.y,
                    y1 == region.position.y + region.size.height,
                    y0 <= row < y1,
                    x0 <= col <= x1,
                    forall|j: int| 0 <= j < BUFFER_CELLS ==> #[trigger] self.text_buffer@[j] == (if (y0 <= j / 80 < row && x0 <= j % 80 < x1) || (j / 80 == row && x0 <= j % 80 < col) { screen_char } else { old_cells[j] }),
                    forall|j: int| 0 <= j < BUFFER_CELLS ==> #[trigger] self.dirty_buffer@[j] == ((y0 <= j / 80 < row && x0 <= j % 80 < x1) || (j / 80 == row && x0 <= j % 80 < col) || old_dirty[j]),
                decreases x1 - col,
            {
                let index = row * BUFFER_WIDTH + col;
                assert(index / 80 == row && index % 80 == col);
                self.text_buffer[index] = screen_char;
                self.dirty_buffer[index] = true;
                col = col + 1;
            }
            row = row + 1;
        }
        assert(self@.cells =~= Seq::new(BUFFER_CELLS as nat, |i: int| if in_region(region, i) { old(self)@.styled(character) } else { old(self)@.cells[i] }));
        assert(self@.dirty =~= Seq::new(BUFFER_CELLS as nat, |i: int| in_region(region, i) || old(self)@.dirty[i]));
    }
}

} // verus!
