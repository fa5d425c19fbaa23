//! What frames and photos show of the picture that was captured.

use crate::errors::CaptureError;
use crate::frame::{frame_from_sample, packed_pixel, Frame};
use crate::photo::{plan_photo, save_photo, Photo, PhotoPlan};
use crate::text::decimal;
use vstd::prelude::*;

verus! {

/// Any plane can be handed over whose rows are at least as far apart as they are long, or whose
/// last row ends within it, and so can one of an empty size or with too few rows.
pub proof fn ordinary_planes_are_taken(width: u32, height: u32, stride: i32, src: &[u8])
    requires
        stride >= 4 * width || (height - 1) * stride + 4 * width <= src@.len() || width == 0
            || height == 0 || stride < 0 || src@.len() < stride * height,
    ensures
        call_requires(frame_from_sample, (width, height, stride, src)),
{
    if width > 0 && height > 0 && stride >= 4 * width {
        assert((height - 1) * stride + stride == stride * height) by (nonlinear_arith);
    }
}

/// A plane gives a frame exactly if its size is not empty, its rows do not run backwards and it
/// holds all of them.
pub proof fn whole_planes_give_frames(
    width: u32,
    height: u32,
    stride: i32,
    src: &[u8],
    res: Option<Frame>,
)
    requires
        call_ensures(frame_from_sample, (width, height, stride, src), res),
    ensures
        res is Some <==> width > 0 && height > 0 && stride >= 0 && src@.len() >= stride * height,
{
}

/// A frame has the size of its picture, four samples for each pixel and no more. Each color sample
/// is the one that lies in its row and column of the plane, and every pixel is opaque.
pub proof fn frames_show_their_plane(
    width: u32,
    height: u32,
    stride: i32,
    src: &[u8],
    frame: Frame,
    x: int,
    y: int,
    c: int,
)
    requires
        call_ensures(frame_from_sample, (width, height, stride, src), Some(frame)),
        0 <= x < width,
        0 <= y < height,
        0 <= c < 3,
    ensures
        frame.width == width,
        frame.height == height,
        frame.rgba@.len() == 4 * (width * height),
        frame.rgba@[4 * (y * width + x) + c] == src@[y * stride + 4 * x + c],
        frame.rgba@[4 * (y * width + x) + 3] == 255,
{
    packed_pixel(src@, width as int, height as int, stride as int, x, y, c);
    packed_pixel(src@, width as int, height as int, stride as int, x, y, 3);
    assert(height * (4 * width) == 4 * (width * height)) by (nonlinear_arith);
}

/// The frame before the first one has no area and no samples.
pub proof fn the_empty_frame_is_empty(frame: Frame)
    requires
        call_ensures(Frame::empty, (), frame),
    ensures
        frame.width == 0 && frame.height == 0,
        frame.rgba@.len() == 0,
{
}

/// A frame is described by its size and the number of its samples, in decimals.
pub proof fn frames_are_described_by_size(frame: Frame, res: String)
    requires
        call_ensures(Frame::debug_text, (&frame,), res),
    ensures
        res@ == "Frame { width: "@ + decimal(frame.width as nat) + ", height: "@ + decimal(
            frame.height as nat,
        ) + ", bytes: "@ + decimal(frame.rgba@.len()) + " }"@,
{
}

/// Whether a frame has its four samples for each pixel, in rows whose length can be counted.
pub open spec fn has_all_samples(frame: Frame) -> bool {
    &&& 4 * frame.width <= usize::MAX
    &&& 4 * (frame.width * frame.height) <= frame.rgba@.len()
}

/// Whether a photo has the size of a frame and at each place its color samples.
pub open spec fn shows_frame(photo: Photo, frame: Frame) -> bool {
    &&& photo.width == frame.width
    &&& photo.height == frame.height
    &&& photo.rgb@.len() == 3 * (frame.width * frame.height)
    &&& forall|x: int, y: int, c: int|
        0 <= x < frame.width && 0 <= y < frame.height && 0 <= c < 3 ==> photo.rgb@[#[trigger] (3 * (y
            * frame.width + x) + c)] == frame.rgba@[4 * (y * frame.width + x) + c]
}

proof fn lemma_place(width: int, height: int, x: int, y: int, c: int)
    requires
        0 <= x < width,
        0 <= y < height,
        0 <= c < 3,
    ensures
        0 <= y * width + x < width * height,
        (3 * (y * width + x) + c) / 3 == y * width + x,
        (3 * (y * width + x) + c) % 3 == c,
{
    let k = y * width + x;
    assert(0 <= k < width * height) by (nonlinear_arith)
        requires
            k == y * width + x,
            0 <= x < width,
            0 <= y < height,
    ;
}

/// A frame with all of its samples makes a photo that shows it; a frame that lacks some is refused
/// for its size.
pub proof fn photos_show_their_frame(frame: Frame, res: Result<Photo, CaptureError>)
    requires
        call_ensures(save_photo, (&frame,), res),
    ensures
        match res {
            Ok(photo) => has_all_samples(frame) && shows_frame(photo, frame),
            Err(e) => !has_all_samples(frame) && e is FrameSizeMismatch,
        },
{
    if let Ok(photo) = res {
        let n = 4 * (frame.width * frame.height);
        assert(frame.width * frame.height >= 0) by (nonlinear_arith);
        assert forall|x: int, y: int, c: int|
            0 <= x < frame.width && 0 <= y < frame.height && 0 <= c
                < 3 implies photo.rgb@[#[trigger] (3 * (y * frame.width + x) + c)]
            == frame.rgba@[4 * (y * frame.width + x) + c] by {
            lemma_place(frame.width as int, frame.height as int, x, y, c);
        }
    }
}

/// A request for a photo comes to nothing without a frame; else the photo shows the latest frame,
/// or is refused, in words, where that frame lacks samples.
pub proof fn photos_are_planned_from_the_latest_frame(latest: Option<Frame>, plan: PhotoPlan)
    requires
        call_ensures(plan_photo, (&latest,), plan),
    ensures
        latest is None <==> plan is NoFrame,
        plan matches PhotoPlan::Write(photo) ==> (latest matches Some(frame) && has_all_samples(
            frame,
        ) && shows_frame(photo, frame)),
        plan matches PhotoPlan::Refused { error } ==> (latest matches Some(frame)
            && !has_all_samples(frame) && error@ == "frame size doesn't match RGBA buffer length"@),
{
    if let PhotoPlan::Write(photo) = plan {
        let frame = latest->0;
        assert(frame.width * frame.height >= 0) by (nonlinear_arith);
        assert forall|x: int, y: int, c: int|
            0 <= x < frame.width && 0 <= y < frame.height && 0 <= c
                < 3 implies photo.rgb@[#[trigger] (3 * (y * frame.width + x) + c)]
            == frame.rgba@[4 * (y * frame.width + x) + c] by {
            lemma_place(frame.width as int, frame.height as int, x, y, c);
        }
    }
}

} // verus!
