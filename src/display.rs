//! The frame compositor: an unbuffered display that writes straight to the
//! physical frame buffer, and a buffered one that writes to a shadow buffer
//! and publishes it on `swap`.

use vstd::prelude::*;
use crate::error::DisplayError;
use crate::geometry::{Color, Position};
use crate::pixel::{
    FrameGeometry, format_error, layout_check, paint_all, painted, pixel_bytes, pixel_offset,
    set_pixel_in_at, writable, write_bytes,
};

verus! {

/// Whether two optional displays are alike in presence, geometry and mode.
pub open spec fn same_display_kind(a: Option<Display>, b: Option<Display>) -> bool {
    &&& (a is Some <==> b is Some)
    &&& a is Some ==> a.unwrap().info() == b.unwrap().info() && a.unwrap().is_buffered() == b.unwrap().is_buffered()
}

/// What a successful `clear` followed by `swap` leaves: the target painted
/// with `color` and published.
pub open spec fn cleared_and_shown(e: Display, d: Display, color: Color) -> bool {
    let t = painted(d.target(), d.info().bytes_per_pixel as int, pixel_bytes(d.info().pixel_format, color));
    &&& e.info() == d.info()
    &&& e.is_buffered() == d.is_buffered()
    &&& e.target() == t
    &&& e.front() == t
}

/// Whether a pixel write at `p` lands: with a writable layout, its bytes at
/// `(y * stride + x) * bytes_per_pixel` inside a buffer of `len` bytes.
pub open spec fn pixel_lands(info: FrameGeometry, p: Position, len: int) -> bool {
    writable(info) && pixel_offset(info, p) + info.bytes_per_pixel <= len
}

/// Whether `p` lies on the visible area.
pub open spec fn pixel_visible(info: FrameGeometry, p: Position) -> bool {
    p.x < info.width && p.y < info.height
}

/// The error of a pixel write at `p` that does not land.
pub open spec fn pixel_error(info: FrameGeometry, p: Position) -> DisplayError {
    if format_error(info).is_some() {
        format_error(info).unwrap()
    } else {
        DisplayError::PixelOutOfBounds
    }
}

/// `target` after writing, in order, each of `pixels` that is visible and
/// lands; the others are skipped.
pub open spec fn paint_seq(target: Seq<u8>, info: FrameGeometry, pixels: Seq<(Position, Color)>) -> Seq<u8>
    decreases pixels.len(),
{
    if pixels.len() == 0 {
        target
    } else {
        let t = paint_seq(target, info, pixels.drop_last());
        let (p, c) = pixels.last();
        if pixel_visible(info, p) && pixel_lands(info, p, t.len() as int) {
            write_bytes(t, pixel_offset(info, p), pixel_bytes(info.pixel_format, c))
        } else {
            t
        }
    }
}

proof fn lemma_paint_seq_len(target: Seq<u8>, info: FrameGeometry, pixels: Seq<(Position, Color)>)
    ensures
        paint_seq(target, info, pixels).len() == target.len(),
    decreases pixels.len(),
{
    if pixels.len() > 0 {
        lemma_paint_seq_len(target, info, pixels.drop_last());
    }
}

/// Writes one pixel of `color` at `position` into `buffer`.
fn write_pixel(buffer: &mut Vec<u8>, info: FrameGeometry, position: Position, color: Color) -> (r: Result<(), DisplayError>)
    ensures
        r is Ok <==> pixel_lands(info, position, old(buffer)@.len() as int),
        r is Ok ==> final(buffer)@ == write_bytes(old(buffer)@, pixel_offset(info, position), pixel_bytes(info.pixel_format, color)),
        r is Err ==> final(buffer)@ == old(buffer)@ && r == Err::<(), DisplayError>(pixel_error(info, position)),
    no_unwind
{
    let len = buffer.len();
    if let Err(e) = layout_check(info) {
        return Err(e);
    }
    let y = position.y as u128;
    let st = info.stride as u128;
    assert(y * st <= 0xFFFF_FFFF_FFFF_FFFE_0000_0000_0000_0001u128) by (nonlinear_arith)
        requires
            y <= 0xFFFF_FFFF_FFFF_FFFFu128,
            st <= 0xFFFF_FFFF_FFFF_FFFFu128,
    ;
    let line: u128 = y * st + (position.x as u128);
    assert(line == position.y * info.stride + position.x);
    if line > usize::MAX as u128 {
        proof {
            let l = position.y * info.stride + position.x;
            assert(l * info.bytes_per_pixel >= l) by (nonlinear_arith)
                requires
                    info.bytes_per_pixel >= 1,
                    l >= 0,
            ;
        }
        return Err(DisplayError::PixelOutOfBounds);
    }
    let b = info.bytes_per_pixel as u128;
    assert(line * b <= 0xFFFF_FFFF_FFFF_FFFE_0000_0000_0000_0001u128) by (nonlinear_arith)
        requires
            line <= 0xFFFF_FFFF_FFFF_FFFFu128,
            b <= 0xFFFF_FFFF_FFFF_FFFFu128,
    ;
    let full: u128 = line * b;
    assert(full == pixel_offset(info, position));
    if full > usize::MAX as u128 {
        return Err(DisplayError::PixelOutOfBounds);
    }
    set_pixel_in_at(buffer, info, full as usize, color)
}

/// Copies `source` over `target`, which has the same length.
fn copy_bytes(target: &mut Vec<u8>, source: &Vec<u8>)
    requires
        old(target)@.len() == source@.len(),
    ensures
        final(target)@ == source@,
    no_unwind
{
    let n = source.len();
    let mut i: usize = 0;
    while i < n
        invariant
            n == source@.len(),
            target@.len() == n,
            i <= n,
            forall|j: int| 0 <= j < i ==> target@[j] == source@[j],
        decreases n - i,
    {
        target[i] = source[i];
        i = i + 1;
    }
    assert(target@ =~= source@);
}

/// A display that writes straight to the physical frame buffer.
pub struct SimpleDisplay {
    frame_buffer: Vec<u8>,
    frame_buffer_info: FrameGeometry,
}

impl SimpleDisplay {
    pub closed spec fn front(&self) -> Seq<u8> {
        self.frame_buffer@
    }

    pub closed spec fn info(&self) -> FrameGeometry {
        self.frame_buffer_info
    }

    pub fn new(frame_buffer: Vec<u8>, frame_buffer_info: FrameGeometry) -> (r: Self)
        ensures
            r.front() == frame_buffer@,
            r.info() == frame_buffer_info,
    {
        Self { frame_buffer, frame_buffer_info }
    }
}

/// A display that writes to a shadow buffer of the physical buffer's length
/// and copies it over the physical buffer on `swap`.
pub struct BufferedDisplay {
    frame_buffer: Vec<u8>,
    back_buffer: Vec<u8>,
    frame_buffer_info: FrameGeometry,
}

impl BufferedDisplay {
    #[verifier::type_invariant]
    spec fn same_length(self) -> bool {
        self.frame_buffer@.len() == self.back_buffer@.len()
    }

    pub closed spec fn front(&self) -> Seq<u8> {
        self.frame_buffer@
    }

    pub closed spec fn back(&self) -> Seq<u8> {
        self.back_buffer@
    }

    pub closed spec fn info(&self) -> FrameGeometry {
        self.frame_buffer_info
    }

    /// A buffered display over `frame_buffer`, with a zeroed shadow buffer.
    pub fn new(frame_buffer: Vec<u8>, frame_buffer_info: FrameGeometry) -> (r: Self)
        ensures
            r.front() == frame_buffer@,
            r.back() == Seq::new(frame_buffer@.len(), |i: int| 0u8),
            r.info() == frame_buffer_info,
    {
        let n = frame_buffer.len();
        let back_buffer = vec![0u8; n];
        assert(back_buffer@ =~= Seq::new(frame_buffer@.len(), |i: int| 0u8));
        Self { frame_buffer, back_buffer, frame_buffer_info }
    }
}

/// The physical buffer and its compositor, in one of the two modes.
pub enum Display {
    Simple(SimpleDisplay),
    Buffered(BufferedDisplay),
}

impl Display {
    /// The physical frame buffer: what is on screen.
    pub open spec fn front(&self) -> Seq<u8> {
        match self {
            Display::Simple(d) => d.front(),
            Display::Buffered(d) => d.front(),
        }
    }

    /// The buffer that drawing writes to.
    pub open spec fn target(&self) -> Seq<u8> {
        match self {
            Display::Simple(d) => d.front(),
            Display::Buffered(d) => d.back(),
        }
    }

    pub open spec fn info(&self) -> FrameGeometry {
        match self {
            Display::Simple(d) => d.info(),
            Display::Buffered(d) => d.info(),
        }
    }

    pub open spec fn is_buffered(&self) -> bool {
        self is Buffered
    }

    /// Nothing visible of the display changed.
    pub open spec fn unchanged(&self, old: &Display) -> bool {
        &&& self.drawn(old, old.target())
        &&& self.front() == old.front()
    }

    /// Drawing changes only the target: a buffered display keeps the screen
    /// as it was until the next swap.
    pub open spec fn drawn(&self, old: &Display, target: Seq<u8>) -> bool {
        &&& self.info() == old.info()
        &&& self.is_buffered() == old.is_buffered()
        &&& self.target() == target
        &&& self.is_buffered() ==> self.front() == old.front()
    }

    /// Writes one pixel at `position`: the bytes of `color` in the pixel
    /// layout, at `(y * stride + x) * bytes_per_pixel`, wherever those bytes
    /// fit the buffer.
    pub fn set_pixel(&mut self, position: Position, color: Color) -> (r: Result<(), DisplayError>)
        ensures
            r is Ok <==> pixel_lands(old(self).info(), position, old(self).target().len() as int),
            r is Ok ==> final(self).drawn(old(self), write_bytes(old(self).target(), pixel_offset(old(self).info(), position), pixel_bytes(old(self).info().pixel_format, color))),
            r is Err ==> final(self).unchanged(old(self)) && r == Err::<(), DisplayError>(pixel_error(old(self).info(), position)),
    {
        match self {
            Display::Simple(d) => write_pixel(&mut d.frame_buffer, d.frame_buffer_info, position, color),
            Display::Buffered(d) => {
                proof { use_type_invariant(&*d); }
                write_pixel(&mut d.back_buffer, d.frame_buffer_info, position, color)
            },
        }
    }

    /// Overwrites the target with `buffer`, which must have its length.
    pub fn draw(&mut self, buffer: &Vec<u8>) -> (r: Result<(), DisplayError>)
        ensures
            r is Ok <==> buffer@.len() == old(self).target().len(),
            r is Ok ==> final(self).drawn(old(self), buffer@),
            r is Err ==> final(self).unchanged(old(self)) && r == Err::<(), DisplayError>(DisplayError::BufferSizeMismatch),
    {
        match self {
            Display::Simple(d) => {
                if buffer.len() != d.frame_buffer.len() {
                    return Err(DisplayError::BufferSizeMismatch);
                }
                copy_bytes(&mut d.frame_buffer, buffer);
                Ok(())
            },
            Display::Buffered(d) => {
                proof { use_type_invariant(&*d); }
                if buffer.len() != d.back_buffer.len() {
                    return Err(DisplayError::BufferSizeMismatch);
                }
                copy_bytes(&mut d.back_buffer, buffer);
                Ok(())
            },
        }
    }

    /// Paints every pixel of the target with `color`.
    pub fn clear(&mut self, color: Color) -> (r: Result<(), DisplayError>)
        ensures
            r is Ok <==> writable(old(self).info()),
            r is Ok ==> final(self).drawn(old(self), painted(old(self).target(), old(self).info().bytes_per_pixel as int, pixel_bytes(old(self).info().pixel_format, color))),
            r is Err ==> final(self).unchanged(old(self)) && r == Err::<(), DisplayError>(format_error(old(self).info()).unwrap()),
    {
        match self {
            Display::Simple(d) => paint_all(&mut d.frame_buffer, d.frame_buffer_info, color),
            Display::Buffered(d) => {
                proof { use_type_invariant(&*d); }
                paint_all(&mut d.back_buffer, d.frame_buffer_info, color)
            },
        }
    }

    /// Publishes the frame: a buffered display copies its shadow buffer over
    /// the physical buffer; an unbuffered one has nothing to do.
    pub fn swap(&mut self)
        ensures
            final(self).info() == old(self).info(),
            final(self).is_buffered() == old(self).is_buffered(),
            final(self).target() == old(self).target(),
            final(self).front() == old(self).target(),
    {
        match self {
            Display::Simple(d) => {},
            Display::Buffered(d) => {
                proof { use_type_invariant(&*d); }
                copy_bytes(&mut d.frame_buffer, &d.back_buffer);
            },
        }
    }

    /// Writes each pixel in turn, skipping those off the visible area, as a
    /// draw target must, and those past the buffer.
    pub fn paint_pixels(&mut self, pixels: &Vec<(Position, Color)>) -> (r: Result<(), DisplayError>)
        ensures
            r is Ok <==> writable(old(self).info()),
            r is Ok ==> final(self).drawn(old(self), paint_seq(old(self).target(), old(self).info(), pixels@)),
            r is Err ==> final(self).unchanged(old(self)) && r == Err::<(), DisplayError>(format_error(old(self).info()).unwrap()),
    {
        let info = self.get_info();
        if let Err(e) = layout_check(info) {
            return Err(e);
        }
        let mut i: usize = 0;
        while i < pixels.len()
            invariant
                writable(old(self).info()),
                info == old(self).info(),
                i <= pixels@.len(),
                self.drawn(old(self), paint_seq(old(self).target(), info, pixels@.take(i as int))),
            decreases pixels@.len() - i,
        {
            let (p, c) = pixels[i];
            proof {
                lemma_paint_seq_len(old(self).target(), info, pixels@.take(i as int));
                assert(pixels@.take(i as int + 1).drop_last() =~= pixels@.take(i as int));
            }
            if p.x < info.width && p.y < info.height {
                let _ = self.set_pixel(p, c);
            }
            i = i + 1;
        }
        assert(pixels@.take(pixels@.len() as int) =~= pixels@);
        Ok(())
    }

    /// Clears the target to `color` and publishes it.
    pub fn clear_and_swap(&mut self, color: Color) -> (r: Result<(), DisplayError>)
        ensures
            final(self).info() == old(self).info(),
            final(self).is_buffered() == old(self).is_buffered(),
            r is Ok <==> writable(old(self).info()),
            r is Ok ==> cleared_and_shown(*final(self), *old(self), color),
            r is Err ==> final(self).unchanged(old(self)) && r == Err::<(), DisplayError>(format_error(old(self).info()).unwrap()),
    {
        let res = self.clear(color);
        if res.is_ok() {
            self.swap();
        }
        res
    }

    /// Paints `pixels` onto the target and publishes it.
    pub fn paint_and_swap(&mut self, pixels: &Vec<(Position, Color)>) -> (r: Result<(), DisplayError>)
        ensures
            final(self).info() == old(self).info(),
            final(self).is_buffered() == old(self).is_buffered(),
            r is Ok <==> writable(old(self).info()),
            r is Ok ==> final(self).info() == old(self).info() && final(self).is_buffered() == old(self).is_buffered()
                && final(self).front() == paint_seq(old(self).target(), old(self).info(), pixels@)
                && final(self).target() == paint_seq(old(self).target(), old(self).info(), pixels@),
            r is Err ==> final(self).unchanged(old(self)) && r == Err::<(), DisplayError>(format_error(old(self).info()).unwrap()),
    {
        let res = self.paint_pixels(pixels);
        if res.is_ok() {
            self.swap();
        }
        res
    }

    pub fn get_info(&self) -> (r: FrameGeometry)
        ensures
            r == self.info(),
    {
        match self {
            Display::Simple(d) => d.frame_buffer_info,
            Display::Buffered(d) => d.frame_buffer_info,
        }
    }

    /// The buffer that drawing writes to.
    pub fn target_buffer(&self) -> (r: &Vec<u8>)
        ensures
            r@ == self.target(),
    {
        match self {
            Display::Simple(d) => &d.frame_buffer,
            Display::Buffered(d) => &d.back_buffer,
        }
    }

    /// The physical frame buffer, for handing to the hardware.
    pub fn frame_buffer(&self) -> (r: &Vec<u8>)
        ensures
            r@ == self.front(),
    {
        match self {
            Display::Simple(d) => &d.frame_buffer,
            Display::Buffered(d) => &d.frame_buffer,
        }
    }
}

} // verus!
