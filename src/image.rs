//! Images: the checks made before a pixel buffer is handed to the native
//! bitmap factory, and the image handle that keeps the bitmap's size.

use crate::draw::Rect;
use piet::ImageFormat;
use vstd::prelude::*;

verus! {

#[verifier::external_type_specification]
pub struct ExImageFormat(piet::ImageFormat);

/// The native bitmap takes four bytes per pixel.
pub const BYTES_PER_PIXEL: u32 = 4;

/// The size of a bitmap and the length in bytes of one of its rows.
#[derive(Clone, Copy, Debug, PartialEq, Eq, Structural)]
pub struct BitmapLayout {
    pub width: u32,
    pub height: u32,
    pub stride: u32,
}

/// Why a pixel buffer cannot become a bitmap.
#[derive(Clone, Copy, Debug, PartialEq, Eq, Structural)]
pub enum ImageError {
    /// The pixels are not four bytes each.
    UnsupportedFormat,
    /// The size or the row length does not fit the native 32-bit fields.
    TooLarge,
    /// The buffer holds fewer bytes than the rows need.
    BufferTooSmall,
}

pub open spec fn four_bytes_per_pixel(format: ImageFormat) -> bool {
    format is RgbaSeparate || format is RgbaPremul
}

/// What becomes of a buffer of `len` bytes for an image of the given size.
pub open spec fn layout_of(width: int, height: int, len: int, format: ImageFormat) -> Result<
    BitmapLayout,
    ImageError,
> {
    if !four_bytes_per_pixel(format) {
        Err(ImageError::UnsupportedFormat)
    } else if width * 4 > u32::MAX || height > u32::MAX {
        Err(ImageError::TooLarge)
    } else if len < width * 4 * height {
        Err(ImageError::BufferTooSmall)
    } else {
        Ok(BitmapLayout { width: width as u32, height: height as u32, stride: (width * 4) as u32 })
    }
}

/// Checks a pixel buffer of `len` bytes and gives the layout of its bitmap.
pub fn bitmap_layout(width: usize, height: usize, len: usize, format: ImageFormat) -> (r: Result<
    BitmapLayout,
    ImageError,
>)
    ensures
        r == layout_of(width as int, height as int, len as int, format),
{
    match format {
        ImageFormat::RgbaSeparate | ImageFormat::RgbaPremul => {},
        _ => {
            return Err(ImageError::UnsupportedFormat);
        },
    }
    if width > (u32::MAX / BYTES_PER_PIXEL) as usize || height > u32::MAX as usize {
        return Err(ImageError::TooLarge);
    }
    let stride: u32 = width as u32 * BYTES_PER_PIXEL;
    assert((stride as int) * (height as int) <= u64::MAX) by (nonlinear_arith)
        requires
            stride <= u32::MAX,
            height <= u32::MAX,
    ;
    let needed: u64 = stride as u64 * height as u64;
    assert(needed == width * 4 * height) by (nonlinear_arith)
        requires
            needed == stride * height,
            stride == width * 4,
    ;
    if (len as u64) < needed {
        return Err(ImageError::BufferTooSmall);
    }
    Ok(BitmapLayout { width: width as u32, height: height as u32, stride })
}

/// A native bitmap together with its size in pixels.
pub struct Image<B> {
    bitmap: B,
    width: u32,
    height: u32,
}

impl<B> Image<B> {
    pub closed spec fn bitmap_spec(&self) -> B {
        self.bitmap
    }

    pub closed spec fn size_spec(&self) -> (u32, u32) {
        (self.width, self.height)
    }

    /// The image of a bitmap made with the given layout.
    pub fn new(bitmap: B, layout: BitmapLayout) -> (r: Self)
        ensures
            r.bitmap_spec() == bitmap,
            r.size_spec() == (layout.width, layout.height),
    {
        Image { bitmap, width: layout.width, height: layout.height }
    }

    pub fn bitmap(&self) -> (r: &B)
        ensures
            *r == self.bitmap_spec(),
    {
        &self.bitmap
    }

    /// The whole image, as the source of a draw.
    pub fn source_rect(&self) -> (r: Rect<u32>)
        ensures
            r == (Rect { x: 0u32, y: 0u32, width: self.size_spec().0, height: self.size_spec().1 }),
    {
        Rect { x: 0, y: 0, width: self.width, height: self.height }
    }
}

} // verus!
