//! Photos: the color samples of a frame, ready to be written as a picture file.

use crate::errors::{error_text, CaptureError};
use crate::frame::{packed, packed_pixel, Frame};
use image::{DynamicImage, ImageBuffer, Rgba, RgbaImage};
use vstd::prelude::*;

verus! {

/// An RGBA image of the `image` crate.
#[verifier::external_body]
pub struct RgbaPicture {
    img: RgbaImage,
}

/// The samples of the pixels of an RGBA image, row by row.
pub uninterp spec fn rgba_samples(picture: RgbaPicture) -> Seq<u8>;

/// How many samples a picture of four channels has.
pub open spec fn rgba_len(width: u32, height: u32) -> int {
    4 * (width * height)
}

/// Whether a buffer holds the samples of a picture, whose rows have to be addressable.
pub open spec fn holds_samples(width: u32, height: u32, len: int) -> bool {
    4 * width <= usize::MAX && rgba_len(width, height) <= len
}

/// The samples of a picture without its alpha channel.
pub open spec fn without_alpha(rgba: Seq<u8>) -> Seq<u8> {
    Seq::new(rgba.len() / 4 * 3, |i: int| rgba[(i / 3) * 4 + i % 3])
}

/// `image::ImageBuffer::from_raw` for RGBA pixels: there is an image exactly where the buffer
/// holds at least four samples for each pixel and the length of a row can be counted, and its
/// pixels are the first so many samples.
#[verifier::external_body]
fn image_from_raw(width: u32, height: u32, samples: Vec<u8>) -> (res: Option<RgbaPicture>)
    ensures
        res is Some <==> holds_samples(width, height, samples@.len() as int),
        res matches Some(picture) ==> rgba_samples(picture) == samples@.take(rgba_len(width, height)),
{
    match ImageBuffer::<Rgba<u8>, Vec<u8>>::from_raw(width, height, samples) {
        Some(img) => Some(RgbaPicture { img }),
        None => None,
    }
}

/// `image::DynamicImage::to_rgb8` of an RGBA image: the samples of its pixels with the alpha
/// samples left out.
#[verifier::external_body]
fn image_to_rgb8(picture: RgbaPicture) -> (res: Vec<u8>)
    ensures
        res@ == without_alpha(rgba_samples(picture)),
{
    DynamicImage::ImageRgba8(picture.img).to_rgb8().into_raw()
}

/// An opaque picture, three samples for each pixel.
pub struct Photo {
    pub width: u32,
    pub height: u32,
    pub rgb: Vec<u8>,
}

/// Whether a photo shows a frame: its size, and the color samples of its pixels.
pub open spec fn is_photo_of(photo: Photo, frame: Frame) -> bool {
    &&& photo.width == frame.width
    &&& photo.height == frame.height
    &&& photo.rgb@ == without_alpha(frame.rgba@.take(rgba_len(frame.width, frame.height)))
}

/// Makes a photo of a frame. A frame with fewer samples than its size calls for is refused.
pub fn save_photo(frame: &Frame) -> (res: Result<Photo, CaptureError>)
    ensures
        match res {
            Ok(photo) => {
                &&& holds_samples(frame.width, frame.height, frame.rgba@.len() as int)
                &&& is_photo_of(photo, *frame)
            },
            Err(e) => {
                &&& e is FrameSizeMismatch
                &&& !holds_samples(frame.width, frame.height, frame.rgba@.len() as int)
            },
        },
{
    let samples: Vec<u8> = (*frame.rgba).clone();
    assert(samples@ =~= frame.rgba@);
    match image_from_raw(frame.width, frame.height, samples) {
        Some(picture) => Ok(
            Photo { width: frame.width, height: frame.height, rgb: image_to_rgb8(picture) },
        ),
        None => Err(CaptureError::FrameSizeMismatch),
    }
}

/// What becomes of a request for a photo.
pub enum PhotoPlan {
    /// No frame has arrived yet; nothing is saved.
    NoFrame,
    /// The latest frame makes no photo.
    Refused { error: String },
    /// Write this photo.
    Write(Photo),
}

/// Whether this is what becomes of a request for a photo, given the latest frame.
pub open spec fn is_photo_plan(latest: Option<Frame>, plan: PhotoPlan) -> bool {
    match latest {
        None => plan is NoFrame,
        Some(frame) => if holds_samples(frame.width, frame.height, frame.rgba@.len() as int) {
            plan matches PhotoPlan::Write(photo) && is_photo_of(photo, frame)
        } else {
            plan matches PhotoPlan::Refused { error } && error@ == error_text(
                CaptureError::FrameSizeMismatch,
            )
        },
    }
}

/// Decides what becomes of a request for a photo: without a frame nothing is saved, else the frame
/// is made into a photo if it can be.
pub fn plan_photo(latest: &Option<Frame>) -> (res: PhotoPlan)
    ensures
        is_photo_plan(*latest, res),
{
    match latest {
        None => PhotoPlan::NoFrame,
        Some(frame) => match save_photo(frame) {
            Ok(photo) => PhotoPlan::Write(photo),
            Err(e) => PhotoPlan::Refused { error: e.message() },
        },
    }
}

/// A frame made from a plane, if it fits in memory, always gives a photo, and the photo shows at
/// every place the color samples that lie there in the plane.
pub proof fn captured_frames_make_photos(
    src: Seq<u8>,
    width: u32,
    height: u32,
    stride: int,
    x: int,
    y: int,
    c: int,
)
    requires
        0 <= x < width,
        0 <= y < height,
        0 <= c < 3,
        packed(src, width as int, height as int, stride).len() <= usize::MAX,
    ensures
        packed(src, width as int, height as int, stride).len() == rgba_len(width, height),
        holds_samples(
            width,
            height,
            packed(src, width as int, height as int, stride).len() as int,
        ),
        without_alpha(
            packed(src, width as int, height as int, stride).take(rgba_len(width, height)),
        )[3 * (y * width + x) + c] == src[y * stride + 4 * x + c],
{
    let frame = packed(src, width as int, height as int, stride);
    assert(height * (4 * width) == rgba_len(width, height)) by (nonlinear_arith)
        requires
            rgba_len(width, height) == 4 * (width * height),
    ;
    assert(4 * width <= rgba_len(width, height)) by (nonlinear_arith)
        requires
            height >= 1,
            rgba_len(width, height) == 4 * (width * height),
    ;
    assert(frame.take(rgba_len(width, height)) =~= frame);
    packed_pixel(src, width as int, height as int, stride, x, y, c);
    packed_pixel(src, width as int, height as int, stride, x, y, 3);
    let k = y * width + x;
    let i = 3 * k + c;
    assert(k >= 0) by (nonlinear_arith)
        requires
            k == y * width + x,
            y >= 0,
            width >= 0,
            x >= 0,
    ;
    assert(i / 3 == k && i % 3 == c);
}

} // verus!
