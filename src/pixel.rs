//! Turning logical pixel writes into the byte pattern of a frame buffer's
//! pixel layout.

use vstd::prelude::*;
use crate::error::DisplayError;
use crate::geometry::{Color, Position};
use vstd::arithmetic::div_mod::lemma_fundamental_div_mod_converse;
use vstd::arithmetic::mul::{lemma_mul_inequality, lemma_mul_is_distributive_add_other_way};

verus! {

/// How one pixel is laid out in bytes.
#[derive(Debug, Clone, Copy, PartialEq, Eq, Structural)]
pub enum PixelLayout {
    /// Red, green, blue in the first three bytes.
    Rgb,
    /// Blue, green, red in the first three bytes.
    Bgr,
    /// One gray byte.
    U8,
    /// Any layout this core cannot write.
    Unknown,
}

/// The geometry of a frame buffer.
#[derive(Debug, Clone, Copy, PartialEq, Eq, Structural)]
pub struct FrameGeometry {
    /// Length of the buffer in bytes.
    pub byte_len: usize,
    /// Visible pixels per line.
    pub width: usize,
    /// Visible lines.
    pub height: usize,
    pub pixel_format: PixelLayout,
    pub bytes_per_pixel: usize,
    /// Pixels per scanline, at least `width`.
    pub stride: usize,
}

/// The gray level written for `c`: each channel divided by three, then summed.
pub open spec fn gray_of(c: Color) -> u8 {
    (c.red / 3 + c.green / 3 + c.blue / 3) as u8
}

/// The leading bytes written for one pixel of color `c`.
pub open spec fn pixel_bytes(layout: PixelLayout, c: Color) -> Seq<u8> {
    match layout {
        PixelLayout::Rgb => seq![c.red, c.green, c.blue],
        PixelLayout::Bgr => seq![c.blue, c.green, c.red],
        PixelLayout::U8 => seq![gray_of(c)],
        PixelLayout::Unknown => Seq::empty(),
    }
}

/// How many leading bytes of a pixel a layout writes.
pub open spec fn layout_bytes(layout: PixelLayout) -> nat {
    match layout {
        PixelLayout::Rgb | PixelLayout::Bgr => 3,
        PixelLayout::U8 => 1,
        PixelLayout::Unknown => 0,
    }
}

/// `buf` with `bytes` written from `at` on.
pub open spec fn write_bytes(buf: Seq<u8>, at: int, bytes: Seq<u8>) -> Seq<u8> {
    Seq::new(buf.len(), |i: int| if at <= i < at + bytes.len() { bytes[i - at] } else { buf[i] })
}

/// The byte offset of the pixel at `p`.
pub open spec fn pixel_offset(info: FrameGeometry, p: Position) -> int {
    (p.y * info.stride + p.x) * info.bytes_per_pixel
}

/// Whether the geometry can be written at all: a known layout whose bytes
/// fit in one pixel.
pub open spec fn writable(info: FrameGeometry) -> bool {
    info.pixel_format != PixelLayout::Unknown && layout_bytes(info.pixel_format) <= info.bytes_per_pixel
}

/// The error a write with `info` meets before any byte is touched, if any.
pub open spec fn format_error(info: FrameGeometry) -> Option<DisplayError> {
    if info.pixel_format == PixelLayout::Unknown {
        Some(DisplayError::UnsupportedPixelFormat)
    } else if info.bytes_per_pixel < layout_bytes(info.pixel_format) {
        Some(DisplayError::InvalidGeometry)
    } else {
        None
    }
}

/// `buf` after every whole pixel slot has been painted with `bytes`.
pub open spec fn painted(buf: Seq<u8>, bpp: int, bytes: Seq<u8>) -> Seq<u8> {
    Seq::new(
        buf.len(),
        |i: int|
            if (i / bpp + 1) * bpp <= buf.len() && i % bpp < bytes.len() {
                bytes[i % bpp]
            } else {
                buf[i]
            },
    )
}

pub fn layout_check(info: FrameGeometry) -> (r: Result<(), DisplayError>)
    ensures
        r is Err <==> format_error(info).is_some(),
        r is Err ==> r == Err::<(), DisplayError>(format_error(info).unwrap()),
        r is Ok <==> writable(info),
    no_unwind
{
    match info.pixel_format {
        PixelLayout::Unknown => Err(DisplayError::UnsupportedPixelFormat),
        PixelLayout::U8 => if info.bytes_per_pixel < 1 {
            Err(DisplayError::InvalidGeometry)
        } else {
            Ok(())
        },
        _ => if info.bytes_per_pixel < 3 {
            Err(DisplayError::InvalidGeometry)
        } else {
            Ok(())
        },
    }
}

/// Writes the bytes of one pixel of `color` at byte offset `index`.
pub fn set_pixel_in_at(frame_buffer: &mut Vec<u8>, info: FrameGeometry, index: usize, color: Color) -> (r: Result<(), DisplayError>)
    ensures
        format_error(info).is_some() ==> r == Err::<(), DisplayError>(format_error(info).unwrap()),
        format_error(info).is_none() && index + info.bytes_per_pixel > old(frame_buffer)@.len() ==> r == Err::<(), DisplayError>(DisplayError::PixelOutOfBounds),
        r is Err ==> final(frame_buffer)@ == old(frame_buffer)@,
        r is Ok <==> writable(info) && index + info.bytes_per_pixel <= old(frame_buffer)@.len(),
        r is Ok ==> final(frame_buffer)@ == write_bytes(old(frame_buffer)@, index as int, pixel_bytes(info.pixel_format, color)),
    no_unwind
{
    if let Err(e) = layout_check(info) {
        return Err(e);
    }
    let len = frame_buffer.len();
    if index > len || info.bytes_per_pixel > len - index {
        return Err(DisplayError::PixelOutOfBounds);
    }
    match info.pixel_format {
        PixelLayout::Rgb => {
            frame_buffer[index] = color.red;
            frame_buffer[index + 1] = color.green;
            frame_buffer[index + 2] = color.blue;
        },
        PixelLayout::Bgr => {
            frame_buffer[index] = color.blue;
            frame_buffer[index + 1] = color.green;
            frame_buffer[index + 2] = color.red;
        },
        _ => {
            let gray: u8 = color.red / 3 + color.green / 3 + color.blue / 3;
            frame_buffer[index] = gray;
        },
    }
    assert(frame_buffer@ =~= write_bytes(old(frame_buffer)@, index as int, pixel_bytes(info.pixel_format, color)));
    Ok(())
}

proof fn lemma_slot_of(i: int, bpp: int, m: int)
    requires
        bpp > 0,
        m >= 0,
        m * bpp <= i < m * bpp + bpp,
    ensures
        i / bpp == m,
        i % bpp == i - m * bpp,
{
    lemma_fundamental_div_mod_converse(i, bpp, m, i - m * bpp);
}

proof fn lemma_slot_bounds(i: int, bpp: int, m: int, len: int)
    requires
        bpp > 0,
        m >= 0,
        0 <= i,
        m * bpp <= len < m * bpp + bpp,
    ensures
        i < m * bpp ==> (i / bpp + 1) * bpp <= len,
        i >= m * bpp ==> (i / bpp + 1) * bpp > len,
{
    let k = i / bpp;
    assert(k * bpp <= i < k * bpp + bpp) by {
        vstd::arithmetic::div_mod::lemma_fundamental_div_mod(i, bpp);
        vstd::arithmetic::div_mod::lemma_mod_bound(i, bpp);
    }
    lemma_mul_is_distributive_add_other_way(bpp, k, 1);
    if i < m * bpp {
        if k >= m {
            lemma_mul_inequality(m, k, bpp);
        }
        assert(k + 1 <= m);
        lemma_mul_inequality(k + 1, m, bpp);
    } else {
        if k < m {
            lemma_mul_inequality(k + 1, m, bpp);
            lemma_mul_is_distributive_add_other_way(bpp, k, 1);
        }
        assert(k >= m);
        lemma_mul_inequality(m + 1, k + 1, bpp);
        lemma_mul_is_distributive_add_other_way(bpp, m, 1);
    }
}

/// Paints every whole pixel slot of the buffer with `color`.
pub fn paint_all(frame_buffer: &mut Vec<u8>, info: FrameGeometry, color: Color) -> (r: Result<(), DisplayError>)
    ensures
        r is Err <==> format_error(info).is_some(),
        r is Err ==> r == Err::<(), DisplayError>(format_error(info).unwrap()) && final(frame_buffer)@ == old(frame_buffer)@,
        r is Ok ==> final(frame_buffer)@ == painted(old(frame_buffer)@, info.bytes_per_pixel as int, pixel_bytes(info.pixel_format, color)),
    no_unwind
{
    if let Err(e) = layout_check(info) {
        return Err(e);
    }
    let bpp = info.bytes_per_pixel;
    let len = frame_buffer.len();
    let ghost old_buf = frame_buffer@;
    let ghost bytes = pixel_bytes(info.pixel_format, color);
    let mut offset: usize = 0;
    let ghost mut m: int = 0;
    while offset <= len && bpp <= len - offset
        invariant
            bpp == info.bytes_per_pixel,
            bpp >= 1,
            writable(info),
            bytes == pixel_bytes(info.pixel_format, color),
            bytes.len() <= bpp,
            len == old_buf.len(),
            frame_buffer@.len() == len,
            m >= 0,
            offset == m * bpp,
            offset <= len,
            forall|i: int|
                0 <= i < len ==> #[trigger] frame_buffer@[i] == (if i < offset && i % (bpp as int) < bytes.len() {
                    bytes[i % (bpp as int)]
                } else {
                    old_buf[i]
                }),
        decreases len - offset,
    {
        let ghost before = frame_buffer@;
        let res = set_pixel_in_at(frame_buffer, info, offset, color);
        assert forall|i: int| 0 <= i < len implies #[trigger] frame_buffer@[i] == (if i < offset + bpp && i % (bpp as int) < bytes.len() {
            bytes[i % (bpp as int)]
        } else {
            old_buf[i]
        }) by {
            if offset <= i < offset + bpp {
                lemma_slot_of(i, bpp as int, m);
            } else if i < offset {
            } else {
            }
        }
        proof {
            lemma_mul_is_distributive_add_other_way(bpp as int, m, 1);
            m = m + 1;
        }
        offset = offset + bpp;
    }
    assert(frame_buffer@ =~= painted(old_buf, bpp as int, bytes)) by {
        assert forall|i: int| 0 <= i < len implies frame_buffer@[i] == #[trigger] painted(old_buf, bpp as int, bytes)[i] by {
            lemma_slot_bounds(i, bpp as int, m, len as int);
        }
    }
    Ok(())
}

} // verus!
