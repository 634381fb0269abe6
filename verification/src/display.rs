//! The frame buffer of the display: where a pixel lies in it and the word
//! that encodes its colour.
use vstd::prelude::*;

verus! {

/// How the frame buffer stores a pixel's colour.
#[derive(Debug, Copy, Clone, PartialEq, Eq, Structural)]
pub enum PixelFormat {
    /// Red in the low byte, then green, then blue.
    Rgb,
    /// Blue in the low byte, then green, then red.
    Bgr,
    /// One grey byte per pixel.
    U8,
    /// Another layout, with the bit positions of each component.
    Unknown { red_position: u8, green_position: u8, blue_position: u8 },
}

/// The layout of a frame buffer: its size in pixels, the number of pixels
/// between the starts of two rows, and the format of a pixel.
#[derive(Debug, Copy, Clone, PartialEq, Eq, Structural)]
pub struct FrameBufferInfo {
    pub width: usize,
    pub height: usize,
    pub stride: usize,
    pub pixel_format: PixelFormat,
}

/// A colour.
#[derive(Debug, Copy, Clone, PartialEq, Eq, Structural)]
pub struct Pixel {
    pub red: u8,
    pub green: u8,
    pub blue: u8,
}

/// The number of bytes of a pixel in the formats the display writes.
pub const PIXEL_SIZE: usize = 4;

/// The byte offset of the pixel at `row`, `col` in a frame buffer whose rows
/// start `stride` pixels apart.
pub open spec fn pixel_offset(stride: usize, row: usize, col: usize) -> int {
    row * stride * 4 + col * 4
}

/// The 32-bit word that encodes `pixel` in `format`.
pub open spec fn pixel_word(format: PixelFormat, pixel: Pixel) -> int {
    match format {
        PixelFormat::Bgr => pixel.red * 65536 + pixel.green * 256 + pixel.blue,
        _ => pixel.blue * 65536 + pixel.green * 256 + pixel.red,
    }
}

/// The display, drawn through its frame buffer.
#[derive(Debug)]
pub struct Display {
    info: FrameBufferInfo,
}

impl Display {
    /// The layout of the frame buffer.
    pub closed spec fn spec_info(&self) -> FrameBufferInfo {
        self.info
    }

    /// A display over a frame buffer of layout `info`.
    pub fn new(info: FrameBufferInfo) -> (r: Self)
        ensures
            r.spec_info() == info,
    {
        Self { info }
    }

    /// Where the pixel at `row`, `col` lies in the frame buffer, in bytes,
    /// and the word to write there for `pixel`. Only the RGB and BGR formats,
    /// of four bytes a pixel, are drawn.
    pub fn set_pixel_unchecked(&self, row: usize, col: usize, pixel: Pixel) -> (r: (usize, u32))
        requires
            self.spec_info().pixel_format is Rgb || self.spec_info().pixel_format is Bgr,
            pixel_offset(self.spec_info().stride, row, col) <= usize::MAX,
        ensures
            r.0 == pixel_offset(self.spec_info().stride, row, col),
            r.1 == pixel_word(self.spec_info().pixel_format, pixel),
    {
        let stride = self.info.stride;
        assert(row * stride * 4 <= usize::MAX && col * 4 <= usize::MAX) by (nonlinear_arith)
            requires
                row * stride * 4 + col * 4 <= usize::MAX,
        ;
        assert(row * stride <= usize::MAX) by (nonlinear_arith)
            requires
                row * stride * 4 <= usize::MAX,
        ;
        let offset = row * stride * PIXEL_SIZE + col * PIXEL_SIZE;
        let color: u32 = match self.info.pixel_format {
            PixelFormat::Bgr => (pixel.red as u32) * 65536 + (pixel.green as u32) * 256
                + pixel.blue as u32,
            _ => (pixel.blue as u32) * 65536 + (pixel.green as u32) * 256 + pixel.red as u32,
        };
        (offset, color)
    }

    /// The width of the display, in pixels.
    pub fn width(&self) -> (r: usize)
        ensures
            r == self.spec_info().width,
    {
        self.info.width
    }

    /// The height of the display, in pixels.
    pub fn height(&self) -> (r: usize)
        ensures
            r == self.spec_info().height,
    {
        self.info.height
    }
}

} // verus!
