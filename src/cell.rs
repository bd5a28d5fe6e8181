//! The packed character-cell encoding of the text grid: palette indices,
//! color codes, attribute bits and screen characters.

use vstd::prelude::*;
use crate::geometry::{Color, Colors, colors_rgb};

verus! {

/// The sixteen entries of the text palette.
#[derive(Debug, Clone, Copy, PartialEq, Eq, Structural)]
pub enum TextColor {
    Black,
    Maroon,
    Green,
    Olive,
    Navy,
    Purple,
    Teal,
    Silver,
    Gray,
    Red,
    Lime,
    Yellow,
    Blue,
    Fuchsia,
    Aqua,
    White,
}

/// The 4-bit palette index of each text color.
pub open spec fn color_index(c: TextColor) -> u8 {
    match c {
        TextColor::Black => 0,
        TextColor::Maroon => 1,
        TextColor::Green => 2,
        TextColor::Olive => 3,
        TextColor::Navy => 4,
        TextColor::Purple => 5,
        TextColor::Teal => 6,
        TextColor::Silver => 7,
        TextColor::Gray => 8,
        TextColor::Red => 9,
        TextColor::Lime => 10,
        TextColor::Yellow => 11,
        TextColor::Blue => 12,
        TextColor::Fuchsia => 13,
        TextColor::Aqua => 14,
        TextColor::White => 15,
    }
}

/// The text color with a given palette index below 16.
pub open spec fn color_at(i: u8) -> TextColor {
    if i == 0 { TextColor::Black }
    else if i == 1 { TextColor::Maroon }
    else if i == 2 { TextColor::Green }
    else if i == 3 { TextColor::Olive }
    else if i == 4 { TextColor::Navy }
    else if i == 5 { TextColor::Purple }
    else if i == 6 { TextColor::Teal }
    else if i == 7 { TextColor::Silver }
    else if i == 8 { TextColor::Gray }
    else if i == 9 { TextColor::Red }
    else if i == 10 { TextColor::Lime }
    else if i == 11 { TextColor::Yellow }
    else if i == 12 { TextColor::Blue }
    else if i == 13 { TextColor::Fuchsia }
    else if i == 14 { TextColor::Aqua }
    else { TextColor::White }
}

/// The named palette color that each text color is shown as.
pub open spec fn text_color_name(c: TextColor) -> Colors {
    match c {
        TextColor::Black => Colors::Black,
        TextColor::Maroon => Colors::Maroon,
        TextColor::Green => Colors::Green,
        TextColor::Olive => Colors::Olive,
        TextColor::Navy => Colors::Navy,
        TextColor::Purple => Colors::Purple,
        TextColor::Teal => Colors::Teal,
        TextColor::Silver => Colors::Silver,
        TextColor::Gray => Colors::Gray,
        TextColor::Red => Colors::Red,
        TextColor::Lime => Colors::Lime,
        TextColor::Yellow => Colors::Yellow,
        TextColor::Blue => Colors::Blue,
        TextColor::Fuchsia => Colors::Fuchsia,
        TextColor::Aqua => Colors::Aqua,
        TextColor::White => Colors::White,
    }
}

/// Every palette index resolves to exactly one color, and back.
pub proof fn lemma_palette_total(i: u8, c: TextColor)
    ensures
        i < 16 ==> color_index(color_at(i)) == i,
        color_at(color_index(c)) == c,
        color_index(c) < 16,
{
}

impl TextColor {
    /// The text color with palette index `value`, if there is one.
    pub fn from_u8(value: u8) -> (r: Option<Self>)
        ensures
            r.is_some() <==> value < 16,
            value < 16 ==> r == Some(color_at(value)),
            r.is_some() ==> color_index(r.unwrap()) == value,
    {
        match value {
            0 => Some(TextColor::Black),
            1 => Some(TextColor::Maroon),
            2 => Some(TextColor::Green),
            3 => Some(TextColor::Olive),
            4 => Some(TextColor::Navy),
            5 => Some(TextColor::Purple),
            6 => Some(TextColor::Teal),
            7 => Some(TextColor::Silver),
            8 => Some(TextColor::Gray),
            9 => Some(TextColor::Red),
            10 => Some(TextColor::Lime),
            11 => Some(TextColor::Yellow),
            12 => Some(TextColor::Blue),
            13 => Some(TextColor::Fuchsia),
            14 => Some(TextColor::Aqua),
            15 => Some(TextColor::White),
            _ => None,
        }
    }

    /// The palette index of this color.
    pub fn as_u8(self) -> (r: u8)
        ensures
            r == color_index(self),
            r < 16,
    {
        match self {
            TextColor::Black => 0,
            TextColor::Maroon => 1,
            TextColor::Green => 2,
            TextColor::Olive => 3,
            TextColor::Navy => 4,
            TextColor::Purple => 5,
            TextColor::Teal => 6,
            TextColor::Silver => 7,
            TextColor::Gray => 8,
            TextColor::Red => 9,
            TextColor::Lime => 10,
            TextColor::Yellow => 11,
            TextColor::Blue => 12,
            TextColor::Fuchsia => 13,
            TextColor::Aqua => 14,
            TextColor::White => 15,
        }
    }

    /// The named palette color this text color is shown as.
    pub fn to_colors(self) -> (r: Colors)
        ensures
            r == text_color_name(self),
    {
        match self {
            TextColor::Black => Colors::Black,
            TextColor::Maroon => Colors::Maroon,
            TextColor::Green => Colors::Green,
            TextColor::Olive => Colors::Olive,
            TextColor::Navy => Colors::Navy,
            TextColor::Purple => Colors::Purple,
            TextColor::Teal => Colors::Teal,
            TextColor::Silver => Colors::Silver,
            TextColor::Gray => Colors::Gray,
            TextColor::Red => Colors::Red,
            TextColor::Lime => Colors::Lime,
            TextColor::Yellow => Colors::Yellow,
            TextColor::Blue => Colors::Blue,
            TextColor::Fuchsia => Colors::Fuchsia,
            TextColor::Aqua => Colors::Aqua,
            TextColor::White => Colors::White,
        }
    }

    /// The RGB value this text color is shown as.
    pub fn color(self) -> (r: Color)
        ensures
            r == colors_rgb(text_color_name(self)),
    {
        self.to_colors().color()
    }
}

impl From<TextColor> for Color {
    fn from(c: TextColor) -> (r: Color) {
        c.color()
    }
}

impl vstd::std_specs::convert::FromSpecImpl<TextColor> for Color {
    open spec fn obeys_from_spec() -> bool {
        true
    }

    open spec fn from_spec(c: TextColor) -> Color {
        colors_rgb(text_color_name(c))
    }
}

/// A foreground and a background palette index packed in one byte:
/// the foreground in the low nibble, the background in the high one.
#[derive(Debug, Clone, Copy, PartialEq, Eq, Structural)]
pub struct ColorCode(pub u8);

impl ColorCode {
    /// Packs `foreground` and `background`.
    pub fn new(foreground: TextColor, background: TextColor) -> (r: Self)
        ensures
            r.0 == color_index(background) * 16 + color_index(foreground),
            r.fg() == foreground,
            r.bg() == background,
    {
        let f = foreground.as_u8();
        let b = background.as_u8();
        let v: u8 = (b << 4u8) | f;
        assert(v == b * 16 + f) by (bit_vector)
            requires
                f < 16,
                b < 16,
                v == (b << 4u8) | f,
        ;
        Self(v)
    }

    /// The foreground color of this code.
    pub open spec fn fg(self) -> TextColor {
        color_at(self.0 % 16)
    }

    /// The background color of this code.
    pub open spec fn bg(self) -> TextColor {
        color_at(self.0 / 16)
    }

    pub fn foreground(&self) -> (r: TextColor)
        ensures
            r == self.fg(),
            color_index(r) == self.0 % 16,
    {
        let c = self.0;
        let v = c & 0xFu8;
        assert(v == c % 16) by (bit_vector)
            requires
                v == c & 0xFu8,
        ;
        TextColor::from_u8(v).unwrap()
    }

    pub fn background(&self) -> (r: TextColor)
        ensures
            r == self.bg(),
            color_index(r) == self.0 / 16,
    {
        let c = self.0;
        let v = (c >> 4u8) & 0xFu8;
        assert(v == c / 16) by (bit_vector)
            requires
                v == (c >> 4u8) & 0xFu8,
        ;
        TextColor::from_u8(v).unwrap()
    }

    /// The code with foreground and background swapped.
    pub fn invert(&self) -> (r: Self)
        ensures
            r.0 == (self.0 % 16) * 16 + self.0 / 16,
            r.fg() == self.bg(),
            r.bg() == self.fg(),
    {
        let c = self.0;
        let v: u8 = (c >> 4u8) | (c << 4u8);
        assert(v == (c % 16) * 16 + c / 16) by (bit_vector)
            requires
                v == (c >> 4u8) | (c << 4u8),
        ;
        Self(v)
    }
}

/// Character attribute bits: bit 0 underline, bit 1 strikethrough.
#[derive(Debug, Clone, Copy, PartialEq, Eq, Structural)]
pub struct CharacterAttributes(pub u8);

impl CharacterAttributes {
    pub fn new(underline: bool, strikethrough: bool) -> (r: Self)
        ensures
            r.0 == (if underline { 1u8 } else { 0u8 }) + (if strikethrough { 2u8 } else { 0u8 }),
            r.is_underline() == underline,
            r.is_strikethrough() == strikethrough,
    {
        let u: u8 = if underline { 1 } else { 0 };
        let st: u8 = if strikethrough { 2 } else { 0 };
        let value: u8 = u | st;
        assert(value == u + st) by (bit_vector)
            requires
                u <= 1,
                st == 0 || st == 2,
                value == u | st,
        ;
        Self(value)
    }

    pub open spec fn is_underline(self) -> bool {
        self.0 % 2 == 1
    }

    pub open spec fn is_strikethrough(self) -> bool {
        (self.0 / 2) % 2 == 1
    }

    pub fn underline(&self) -> (r: bool)
        ensures
            r == self.is_underline(),
    {
        let v = self.0;
        assert((v & 1u8 != 0) == (v % 2 == 1)) by (bit_vector);
        v & 1u8 != 0
    }

    pub fn strikethrough(&self) -> (r: bool)
        ensures
            r == self.is_strikethrough(),
    {
        let v = self.0;
        assert((v & 2u8 != 0) == ((v / 2) % 2 == 1)) by (bit_vector);
        v & 2u8 != 0
    }
}

/// The character drawn in place of one outside the one-byte range.
pub const UNSUPPORTED_GLYPH: char = '?';

/// Whether `c` fits the one-byte character range of a cell.
pub open spec fn renderable(c: char) -> bool {
    (c as u32) < 256
}

/// The one-byte code stored for `c`: its own code if it fits, else the
/// unsupported-glyph marker.
pub open spec fn stored_code(c: char) -> u32 {
    if renderable(c) { c as u32 } else { UNSUPPORTED_GLYPH as u32 }
}

/// A character cell packed in a word: the character code in bits 0..8, the
/// color code in bits 8..16 and the attributes in bits 16..24.
#[derive(Debug, Clone, Copy, PartialEq, Eq, Structural)]
pub struct ScreenChar(pub u32);

impl ScreenChar {
    /// The character code of this cell.
    pub open spec fn code(self) -> u32 {
        self.0 % 256
    }

    /// The color code of this cell.
    pub open spec fn color_code(self) -> ColorCode {
        ColorCode(((self.0 / 256) % 256) as u8)
    }

    /// The attributes of this cell.
    pub open spec fn attrs(self) -> CharacterAttributes {
        CharacterAttributes(((self.0 / 65536) % 256) as u8)
    }

    /// The cell for `character` with `color` and `attributes`. A character
    /// outside the one-byte range is stored as the unsupported-glyph marker.
    pub fn new(character: char, color: ColorCode, attributes: CharacterAttributes) -> (r: Self)
        ensures
            r.code() == stored_code(character),
            r.color_code() == color,
            r.attrs() == attributes,
            r.0 == stored_code(character) + color.0 * 256 + attributes.0 * 65536,
            r.0 < 0x100_0000,
    {
        let raw = character as u32;
        let c: u32 = if raw < 256 { raw } else { UNSUPPORTED_GLYPH as u32 };
        let k = color.0 as u32;
        let a = attributes.0 as u32;
        let v: u32 = c | (k << 8u32) | (a << 16u32);
        assert(v == c + k * 256 + a * 65536) by (bit_vector)
            requires
                c < 256,
                k < 256,
                a < 256,
                v == c | (k << 8u32) | (a << 16u32),
        ;
        Self(v)
    }

    pub fn character(&self) -> (r: char)
        ensures
            r as u32 == self.code(),
    {
        let w = self.0;
        let b = (w & 0xFFu32) as u8;
        assert(w & 0xFFu32 == w % 256) by (bit_vector);
        b as char
    }

    pub fn color(&self) -> (r: ColorCode)
        ensures
            r == self.color_code(),
    {
        let w = self.0;
        assert(((w >> 8u32) as u8) == ((w / 256) % 256) as u8) by (bit_vector);
        ColorCode((w >> 8u32) as u8)
    }

    pub fn attributes(&self) -> (r: CharacterAttributes)
        ensures
            r == self.attrs(),
    {
        let w = self.0;
        assert(((w >> 16u32) as u8) == ((w / 65536) % 256) as u8) by (bit_vector);
        CharacterAttributes((w >> 16u32) as u8)
    }
}

} // verus!
