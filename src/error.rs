//! Errors of the display core. Every one of them is a configuration or
//! invariant violation that the kernel treats as fatal.

use vstd::prelude::*;

verus! {

#[derive(Debug, Clone, Copy, PartialEq, Eq, Structural)]
pub enum DisplayError {
    /// The pixel layout of the frame buffer is not one this core can write.
    UnsupportedPixelFormat,
    /// The bytes per pixel are too few for the pixel layout.
    InvalidGeometry,
    /// A pixel write would reach past the end of the buffer.
    PixelOutOfBounds,
    /// A buffer handed over does not have the length of the frame buffer.
    BufferSizeMismatch,
    /// The driver holds no display.
    NoDisplay,
    /// The text driver has no font.
    NoFont,
    /// The graphics driver has no back buffer yet.
    NoBackBuffer,
    /// A display of unknown type was requested.
    UnknownDisplayType,
    /// Text mode was requested on an unbuffered display.
    TextModeRequiresBuffered,
}

} // verus!
