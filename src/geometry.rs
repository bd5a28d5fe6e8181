//! Plain geometric and color values shared by every display component.

use vstd::prelude::*;

verus! {

/// A point in a grid or on the screen.
#[derive(Debug, Clone, Copy, PartialEq, Eq, Structural)]
pub struct Position {
    pub x: usize,
    pub y: usize,
}

impl Position {
    pub fn new(x: usize, y: usize) -> (r: Self)
        ensures
            r.x == x,
            r.y == y,
    {
        Self { x, y }
    }
}

/// A width and a height.
#[derive(Debug, Clone, Copy, PartialEq, Eq, Structural)]
pub struct Size {
    pub width: usize,
    pub height: usize,
}

impl Size {
    pub fn new(width: usize, height: usize) -> (r: Self)
        ensures
            r.width == width,
            r.height == height,
    {
        Self { width, height }
    }
}

/// An axis-aligned rectangle: its top-left corner and its extent.
#[derive(Debug, Clone, Copy, PartialEq, Eq, Structural)]
pub struct Region {
    pub position: Position,
    pub size: Size,
}

impl Region {
    pub fn new(position: Position, size: Size) -> (r: Self)
        ensures
            r.position == position,
            r.size == size,
    {
        Self { position, size }
    }
}

/// A 24-bit color.
#[derive(Debug, Clone, Copy, PartialEq, Eq, Structural)]
pub struct Color {
    pub red: u8,
    pub green: u8,
    pub blue: u8,
}

impl Color {
    pub fn new(red: u8, green: u8, blue: u8) -> (r: Self)
        ensures
            r.red == red,
            r.green == green,
            r.blue == blue,
    {
        Self { red, green, blue }
    }
}

/// The named colors of the system palette.
#[derive(Debug, Clone, Copy, PartialEq, Eq, Structural)]
pub enum Colors {
    Black,
    Silver,
    Gray,
    White,
    Maroon,
    Brown,
    Red,
    Purple,
    Fuchsia,
    Green,
    Lime,
    Olive,
    Yellow,
    Navy,
    Blue,
    Teal,
    Aqua,
}

/// The RGB value of each named color.
pub open spec fn colors_rgb(c: Colors) -> Color {
    match c {
        Colors::Black => Color { red: 0, green: 0, blue: 0 },
        Colors::Silver => Color { red: 192, green: 192, blue: 192 },
        Colors::Gray => Color { red: 128, green: 128, blue: 128 },
        Colors::White => Color { red: 255, green: 255, blue: 255 },
        Colors::Maroon => Color { red: 128, green: 0, blue: 0 },
        Colors::Brown => Color { red: 165, green: 42, blue: 42 },
        Colors::Red => Color { red: 255, green: 0, blue: 0 },
        Colors::Purple => Color { red: 128, green: 0, blue: 128 },
        Colors::Fuchsia => Color { red: 255, green: 0, blue: 255 },
        Colors::Green => Color { red: 0, green: 128, blue: 0 },
        Colors::Lime => Color { red: 0, green: 255, blue: 0 },
        Colors::Olive => Color { red: 128, green: 128, blue: 0 },
        Colors::Yellow => Color { red: 255, green: 255, blue: 0 },
        Colors::Navy => Color { red: 0, green: 0, blue: 128 },
        Colors::Blue => Color { red: 0, green: 0, blue: 255 },
        Colors::Teal => Color { red: 0, green: 128, blue: 128 },
        Colors::Aqua => Color { red: 0, green: 255, blue: 255 },
    }
}

impl Colors {
    /// The RGB value of this named color.
    pub fn color(self) -> (r: Color)
        ensures
            r == colors_rgb(self),
    {
        match self {
            Colors::Black => Color::new(0, 0, 0),
            Colors::Silver => Color::new(192, 192, 192),
            Colors::Gray => Color::new(128, 128, 128),
            Colors::White => Color::new(255, 255, 255),
            Colors::Maroon => Color::new(128, 0, 0),
            Colors::Brown => Color::new(165, 42, 42),
            Colors::Red => Color::new(255, 0, 0),
            Colors::Purple => Color::new(128, 0, 128),
            Colors::Fuchsia => Color::new(255, 0, 255),
            Colors::Green => Color::new(0, 128, 0),
            Colors::Lime => Color::new(0, 255, 0),
            Colors::Olive => Color::new(128, 128, 0),
            Colors::Yellow => Color::new(255, 255, 0),
            Colors::Navy => Color::new(0, 0, 128),
            Colors::Blue => Color::new(0, 0, 255),
            Colors::Teal => Color::new(0, 128, 128),
            Colors::Aqua => Color::new(0, 255, 255),
        }
    }
}

impl From<Colors> for Color {
    fn from(c: Colors) -> (r: Color) {
        c.color()
    }
}

impl vstd::std_specs::convert::FromSpecImpl<Colors> for Color {
    open spec fn obeys_from_spec() -> bool {
        true
    }

    open spec fn from_spec(c: Colors) -> Color {
        colors_rgb(c)
    }
}

/// The fixed-size bitmap fonts available for text rendering.
#[derive(Debug, Clone, Copy, PartialEq, Eq, Structural)]
pub enum Fonts {
    Font6x9,
    Font6x10,
    Font6x12,
    Font6x13,
    Font6x13B,
    Font6x13I,
    Font7x13,
    Font7x13B,
    Font7x13I,
    Font7x14,
    Font7x14B,
    Font8x13,
    Font8x13B,
    Font8x13I,
    Font9x15,
    Font9x15B,
    Font9x18,
    Font9x18B,
    Font10x20,
}

/// The cell size in pixels of each font: (width, height).
pub open spec fn font_cell(f: Fonts) -> (usize, usize) {
    match f {
        Fonts::Font6x9 => (6, 9),
        Fonts::Font6x10 => (6, 10),
        Fonts::Font6x12 => (6, 12),
        Fonts::Font6x13 | Fonts::Font6x13B | Fonts::Font6x13I => (6, 13),
        Fonts::Font7x13 | Fonts::Font7x13B | Fonts::Font7x13I => (7, 13),
        Fonts::Font7x14 | Fonts::Font7x14B => (7, 14),
        Fonts::Font8x13 | Fonts::Font8x13B | Fonts::Font8x13I => (8, 13),
        Fonts::Font9x15 | Fonts::Font9x15B => (9, 15),
        Fonts::Font9x18 | Fonts::Font9x18B => (9, 18),
        Fonts::Font10x20 => (10, 20),
    }
}

impl Fonts {
    /// The size in pixels of one character cell of this font.
    pub fn get_size(self) -> (r: Size)
        ensures
            r.width == font_cell(self).0,
            r.height == font_cell(self).1,
            1 <= r.width <= 10,
            1 <= r.height <= 20,
    {
        match self {
            Fonts::Font6x9 => Size::new(6, 9),
            Fonts::Font6x10 => Size::new(6, 10),
            Fonts::Font6x12 => Size::new(6, 12),
            Fonts::Font6x13 => Size::new(6, 13),
            Fonts::Font6x13B => Size::new(6, 13),
            Fonts::Font6x13I => Size::new(6, 13),
            Fonts::Font7x13 => Size::new(7, 13),
            Fonts::Font7x13B => Size::new(7, 13),
            Fonts::Font7x13I => Size::new(7, 13),
            Fonts::Font7x14 => Size::new(7, 14),
            Fonts::Font7x14B => Size::new(7, 14),
            Fonts::Font8x13 => Size::new(8, 13),
            Fonts::Font8x13B => Size::new(8, 13),
            Fonts::Font8x13I => Size::new(8, 13),
            Fonts::Font9x15 => Size::new(9, 15),
            Fonts::Font9x15B => Size::new(9, 15),
            Fonts::Font9x18 => Size::new(9, 18),
            Fonts::Font9x18B => Size::new(9, 18),
            Fonts::Font10x20 => Size::new(10, 20),
        }
    }
}

impl Default for Fonts {
    fn default() -> (r: Self)
        ensures
            r == Fonts::Font9x18,
    {
        Fonts::Font9x18
    }
}

/// Vertical anchor of drawn text relative to its position.
#[derive(Debug, Clone, Copy, PartialEq, Eq, Structural)]
pub enum TextBaseline {
    Top,
    Middle,
    Bottom,
}

/// Horizontal anchor of drawn text relative to its position.
#[derive(Debug, Clone, Copy, PartialEq, Eq, Structural)]
pub enum TextAlignment {
    Left,
    Center,
    Right,
}

/// Line spacing of drawn text.
#[derive(Debug, Clone, Copy, PartialEq, Eq, Structural)]
pub enum TextLineHeight {
    Half,
    Full,
    Double,
    Pixels(u32),
    Percent(u32),
}

} // verus!
