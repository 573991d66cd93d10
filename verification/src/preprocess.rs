//! The frame preprocessor: a raw RGB frame of the emulator becomes a
//! grayscale frame of 84 by 84 intensities.
//!
//! An intensity is a byte `v` that stands for the value `v / 255` in `[0, 1]`.

use vstd::prelude::*;

verus! {

/// Width of a preprocessed frame.
pub const FRAME_WIDTH: u32 = 84;

/// Height of a preprocessed frame.
pub const FRAME_HEIGHT: u32 = 84;

/// Number of intensities in a preprocessed frame.
pub const FRAME_SIZE: usize = 7056;

/// Widest raw frame that is accepted: the resampling keeps four `f32`
/// channels for each of its pixels in every one of the 84 output rows, and
/// that buffer has to be addressable where `usize` has 32 bits.
pub const MAX_SOURCE_WIDTH: i32 = 1_597_830;

/// Why a raw frame was not preprocessed.
#[derive(Clone, Copy, Debug, PartialEq, Eq, Structural)]
pub enum FrameError {
    /// The buffer does not hold `width * height` RGB pixels.
    LengthMismatch,
    /// The frame is wider than [`MAX_SOURCE_WIDTH`].
    TooWide,
}

/// The buffer holds exactly `width * height` pixels of three bytes.
pub open spec fn frame_well_formed(len: nat, width: i32, height: i32) -> bool {
    &&& width >= 0
    &&& height >= 0
    &&& len == width * height * 3
}

/// Intensity of an RGB pixel: the sum of the channels weighted by 0.299,
/// 0.587 and 0.114, rounded down.
pub open spec fn luma(r: u8, g: u8, b: u8) -> u8 {
    ((299 * r + 587 * g + 114 * b) / 1000) as u8
}

/// The intensities of the pixels of an RGB buffer, pixel by pixel.
pub open spec fn grayscale_of(rgb: Seq<u8>) -> Seq<u8> {
    Seq::new(
        (rgb.len() / 3) as nat,
        |p: int| luma(rgb[3 * p], rgb[3 * p + 1], rgb[3 * p + 2]),
    )
}

/// The frame is one that [`preprocess_screen`] takes.
pub open spec fn frame_accepted(len: nat, width: i32, height: i32) -> bool {
    frame_well_formed(len, width, height) && width <= MAX_SOURCE_WIDTH
}

/// Why a frame that is not accepted is rejected.
pub open spec fn rejection(len: nat, width: i32, height: i32) -> FrameError {
    if frame_well_formed(len, width, height) {
        FrameError::TooWide
    } else {
        FrameError::LengthMismatch
    }
}

/// The preprocessed frame of an accepted raw frame.
pub open spec fn preprocessed(rgb: Seq<u8>, width: i32, height: i32) -> Seq<u8> {
    grayscale_of(nearest_resized(rgb, width as u32, height as u32, FRAME_WIDTH, FRAME_HEIGHT))
}

/// The RGB bytes that `image::imageops::resize` gives with the filter
/// `Nearest` for an RGB image of `width` by `height` pixels, resized to
/// `new_width` by `new_height`.
pub uninterp spec fn nearest_resized(
    rgb: Seq<u8>,
    width: u32,
    height: u32,
    new_width: u32,
    new_height: u32,
) -> Seq<u8>;

/// Calls `image::imageops::resize` with `FilterType::Nearest` on the image
/// that `ImageBuffer::from_raw` makes of the buffer.
///
/// The result is the raw buffer of an RGB image of the new dimensions. The
/// buffer given holds exactly the pixels of the source, so `from_raw`
/// accepts it; the bounds keep the buffers that `resize` allocates, of up to
/// sixteen bytes a pixel, within what `ImageBuffer::new` can create.
#[verifier::external_body]
fn resize_nearest(buffer: Vec<u8>, width: u32, height: u32, new_width: u32, new_height: u32) -> (out:
    Vec<u8>)
    requires
        buffer@.len() == width * height * 3,
        16 * width * new_height <= isize::MAX,
        16 * new_width * new_height <= isize::MAX,
    ensures
        out@ == nearest_resized(buffer@, width, height, new_width, new_height),
        out@.len() == new_width * new_height * 3,
{
    let source: image::RgbImage = image::ImageBuffer::from_raw(width, height, buffer).unwrap();
    image::imageops::resize(
        &source,
        new_width,
        new_height,
        image::imageops::FilterType::Nearest,
    ).into_raw()
}

/// The intensity of every pixel of an RGB buffer. Bytes after the last whole
/// pixel are ignored.
pub fn grayscale(rgb: &Vec<u8>) -> (gray: Vec<u8>)
    ensures
        gray@ == grayscale_of(rgb@),
{
    let total: usize = rgb.len();
    let pixels: usize = total / 3;
    let mut gray: Vec<u8> = Vec::new();
    let mut p: usize = 0;
    while p < pixels
        invariant
            total == rgb@.len(),
            pixels == total / 3,
            p <= pixels,
            gray@ == grayscale_of(rgb@).take(p as int),
        decreases pixels - p,
    {
        let r: u32 = rgb[3 * p] as u32;
        let g: u32 = rgb[3 * p + 1] as u32;
        let b: u32 = rgb[3 * p + 2] as u32;
        let value: u32 = (299 * r + 587 * g + 114 * b) / 1000;
        gray.push(value as u8);
        p += 1;
        assert(gray@ =~= grayscale_of(rgb@).take(p as int));
    }
    assert(gray@ =~= grayscale_of(rgb@));
    gray
}

/// Turns a raw frame into a preprocessed one: resized to 84 by 84 by nearest
/// neighbour, then converted to intensities. Fails when the buffer does not
/// hold `width * height` RGB pixels, or when the frame is too wide.
pub fn preprocess_screen(buffer: Vec<u8>, width: i32, height: i32) -> (result: Result<
    Vec<u8>,
    FrameError,
>)
    ensures
        match result {
            Ok(frame) => {
                &&& frame_accepted(buffer@.len(), width, height)
                &&& frame@ == preprocessed(buffer@, width, height)
                &&& frame@.len() == FRAME_SIZE
            },
            Err(error) => {
                &&& !frame_accepted(buffer@.len(), width, height)
                &&& error == rejection(buffer@.len(), width, height)
            },
        },
{
    if width < 0 || height < 0 {
        return Err(FrameError::LengthMismatch);
    }
    assert((width as u64) * (height as u64) <= 0x7fff_ffff * 0x7fff_ffff) by (nonlinear_arith)
        requires
            0 <= width <= 0x7fff_ffff,
            0 <= height <= 0x7fff_ffff,
    ;
    let pixels: u64 = (width as u64) * (height as u64);
    if buffer.len() as u64 != pixels * 3 {
        return Err(FrameError::LengthMismatch);
    }
    if width > MAX_SOURCE_WIDTH {
        return Err(FrameError::TooWide);
    }
    let resized = resize_nearest(buffer, width as u32, height as u32, FRAME_WIDTH, FRAME_HEIGHT);
    Ok(grayscale(&resized))
}

} // verus!
