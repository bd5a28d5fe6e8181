//! Requests to the glyph renderer, and the mapping from cell positions to
//! pixel positions.

use vstd::prelude::*;
use crate::geometry::{
    Color, Fonts, Position, TextAlignment, TextBaseline, TextLineHeight, font_cell,
};

verus! {

/// One text draw for the glyph renderer: `text` at pixel `position`.
#[derive(Debug, Clone, PartialEq, Eq)]
pub struct TextDraw {
    pub text: String,
    pub position: Position,
    pub text_color: Color,
    pub background_color: Option<Color>,
    pub font: Fonts,
    pub underline: bool,
    pub strikethrough: bool,
    pub baseline: TextBaseline,
    pub alignment: TextAlignment,
    pub line_height: TextLineHeight,
}

/// `a * b`, or `usize::MAX` where the product does not fit.
pub open spec fn scaled(a: usize, b: usize) -> usize {
    if a * b <= usize::MAX { (a * b) as usize } else { usize::MAX }
}

/// The pixel position of the top-left corner of cell `p` in font `f`.
pub open spec fn screen_of(p: Position, f: Fonts) -> Position {
    Position { x: scaled(p.x, font_cell(f).0), y: scaled(p.y, font_cell(f).1) }
}

pub fn scale(a: usize, b: usize) -> (r: usize)
    ensures
        r == scaled(a, b),
{
    let wa = a as u128;
    let wb = b as u128;
    assert(wa * wb <= 0xFFFF_FFFF_FFFF_FFFE_0000_0000_0000_0001u128) by (nonlinear_arith)
        requires
            wa <= 0xFFFF_FFFF_FFFF_FFFFu128,
            wb <= 0xFFFF_FFFF_FFFF_FFFFu128,
    ;
    let wide: u128 = wa * wb;
    if wide > usize::MAX as u128 {
        usize::MAX
    } else {
        wide as usize
    }
}

/// The pixel position of the top-left corner of cell `text_position`.
pub fn map_position(text_position: Position, font: Fonts) -> (r: Position)
    ensures
        r == screen_of(text_position, font),
{
    let size = font.get_size();
    Position::new(scale(text_position.x, size.width), scale(text_position.y, size.height))
}

} // verus!
