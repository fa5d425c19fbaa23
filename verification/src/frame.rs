//! Video frames: tightly packed, opaque RGBA pictures.

use crate::text::{append_decimal, decimal};
use std::sync::Arc;
use vstd::arithmetic::div_mod::lemma_fundamental_div_mod_converse;
use vstd::prelude::*;
use vstd::string::StringExecFns;

verus! {

/// A decoded RGBA video frame, cheap to clone because the samples are shared.
#[derive(Clone)]
pub struct Frame {
    pub width: u32,
    pub height: u32,
    pub rgba: Arc<Vec<u8>>,
}

/// The samples of a picture whose rows start `stride` bytes apart, packed without gaps and with
/// every alpha sample at full.
pub open spec fn packed(src: Seq<u8>, width: int, height: int, stride: int) -> Seq<u8> {
    Seq::new(
        (height * (4 * width)) as nat,
        |i: int|
            if i % 4 == 3 {
                255
            } else {
                src[(i / (4 * width)) * stride + i % (4 * width)]
            },
    )
}

/// Whether a plane holds a picture: the size is not empty and there are `height` rows.
pub open spec fn holds_picture(width: int, height: int, stride: int, len: int) -> bool {
    width > 0 && height > 0 && 0 <= stride && stride * height <= len
}

/// Whether the last row of a picture ends within the plane.
pub open spec fn rows_fit(width: int, height: int, stride: int, len: int) -> bool {
    (height - 1) * stride + 4 * width <= len
}

impl Frame {
    /// Stands for a frame before the first one arrives; its width of zero keeps it from being
    /// shown.
    pub fn empty() -> (res: Self)
        ensures
            res.width == 0,
            res.height == 0,
            res.rgba@ == Seq::<u8>::empty(),
    {
        Frame { width: 0, height: 0, rgba: Arc::new(Vec::new()) }
    }

    /// A short description: the size and the number of bytes, not the samples.
    pub fn debug_text(&self) -> (res: String)
        ensures
            res@ == "Frame { width: "@ + decimal(self.width as nat) + ", height: "@ + decimal(
                self.height as nat,
            ) + ", bytes: "@ + decimal(self.rgba@.len()) + " }"@,
    {
        let mut out: String = "Frame { width: ".to_owned();
        append_decimal(&mut out, self.width as u64);
        out.append(", height: ");
        append_decimal(&mut out, self.height as u64);
        out.append(", bytes: ");
        append_decimal(&mut out, self.rgba.len() as u64);
        out.append(" }");
        out
    }
}

/// Packs the picture in a plane of RGBA samples into a frame, honoring the real distance between
/// rows: rows can be padded out to a hardware alignment, and copying them as they lie would shear
/// the picture. Every pixel is made opaque, since a camera picture has no meaningful alpha.
///
/// There is no frame where the size is empty, the stride is negative or the plane is too short.
pub fn frame_from_sample(width: u32, height: u32, stride: i32, src: &[u8]) -> (res: Option<Frame>)
    requires
        holds_picture(width as int, height as int, stride as int, src@.len() as int) ==> rows_fit(
            width as int,
            height as int,
            stride as int,
            src@.len() as int,
        ),
    ensures
        res is Some <==> holds_picture(
            width as int,
            height as int,
            stride as int,
            src@.len() as int,
        ),
        res matches Some(frame) ==> {
            &&& frame.width == width
            &&& frame.height == height
            &&& frame.rgba@ == packed(src@, width as int, height as int, stride as int)
        },
{
    if width == 0 || height == 0 || stride < 0 {
        return None;
    }
    assert(stride * height <= 0x7fff_ffff * 0xffff_ffff) by (nonlinear_arith)
        requires
            0 <= stride <= 0x7fff_ffff,
            0 <= height <= 0xffff_ffff,
    ;
    let len: usize = src.len();
    if (len as u64) < (stride as u64) * (height as u64) {
        return None;
    }
    assert((height - 1) * stride >= 0) by (nonlinear_arith)
        requires
            height >= 1,
            stride >= 0,
    ;
    let rows: usize = height as usize;
    let step: usize = stride as usize;
    let tight: usize = width as usize * 4;
    let ghost whole = packed(src@, width as int, height as int, stride as int);
    let mut rgba: Vec<u8> = Vec::new();
    let mut row: usize = 0;
    while row < rows
        invariant
            width > 0,
            0 <= stride,
            rows == height,
            step == stride,
            tight == 4 * width,
            row <= rows,
            len == src@.len(),
            (height - 1) * stride + 4 * width <= src@.len(),
            whole == packed(src@, width as int, height as int, stride as int),
            rgba@.len() == row * tight,
            forall|i: int| 0 <= i < rgba@.len() ==> rgba@[i] == whole[i],
        decreases rows - row,
    {
        assert(row * stride <= (height - 1) * stride) by (nonlinear_arith)
            requires
                row <= height - 1,
                stride >= 0,
        ;
        assert(row * step >= 0) by (nonlinear_arith);
        let start: usize = row * step;
        let mut col: usize = 0;
        assert(row * tight + tight == (row + 1) * tight) by (nonlinear_arith);
        assert((row + 1) * tight <= rows * tight) by (nonlinear_arith)
            requires
                row + 1 <= rows,
        ;
        while col < tight
            invariant
                width > 0,
                rows == height,
                tight == 4 * width,
                row < rows,
                len == src@.len(),
                col <= tight,
                start == row * stride,
                start + tight <= src@.len(),
                row * tight + tight <= rows * tight,
                whole == packed(src@, width as int, height as int, stride as int),
                rgba@.len() == row * tight + col,
                forall|i: int| 0 <= i < rgba@.len() ==> rgba@[i] == whole[i],
            decreases tight - col,
        {
            let ghost i = row * tight + col;
            proof {
                assert(0 <= i) by (nonlinear_arith)
                    requires
                        i == row * tight + col,
                        row >= 0,
                        tight >= 0,
                        col >= 0,
                ;
                lemma_fundamental_div_mod_converse(i, tight as int, row as int, col as int);
                let k = row * width;
                assert(row * tight == 4 * k) by (nonlinear_arith)
                    requires
                        tight == 4 * width,
                        k == row * width,
                ;
            }
            if col % 4 == 3 {
                rgba.push(255);
            } else {
                rgba.push(src[start + col]);
            }
            assert(rgba@[i] == whole[i]);
            col = col + 1;
        }
        row = row + 1;
    }
    assert(rgba@ =~= whole);
    Some(Frame { width, height, rgba: Arc::new(rgba) })
}

/// The sample `c` of the pixel in column `x` and row `y` of a packed picture is the one that lies
/// there in the plane, except that alpha is full.
pub proof fn packed_pixel(src: Seq<u8>, width: int, height: int, stride: int, x: int, y: int, c: int)
    requires
        0 <= x < width,
        0 <= y < height,
        0 <= c < 4,
    ensures
        0 <= 4 * (y * width + x) + c < packed(src, width, height, stride).len(),
        packed(src, width, height, stride)[4 * (y * width + x) + c] == if c == 3 {
            255
        } else {
            src[y * stride + 4 * x + c]
        },
{
    let tight = 4 * width;
    let i = 4 * (y * width + x) + c;
    assert(i == y * tight + (4 * x + c)) by (nonlinear_arith)
        requires
            tight == 4 * width,
            i == 4 * (y * width + x) + c,
    ;
    assert(0 <= i < height * tight) by (nonlinear_arith)
        requires
            i == y * tight + (4 * x + c),
            0 <= y < height,
            0 <= 4 * x + c < tight,
    ;
    lemma_fundamental_div_mod_converse(i, tight, y, 4 * x + c);
}

/// What lies between the rows of a plane does not show in the frame.
pub proof fn row_padding_is_ignored(
    one: Seq<u8>,
    other: Seq<u8>,
    width: int,
    height: int,
    stride: int,
)
    requires
        width > 0,
        height > 0,
        forall|y: int, x: int|
            0 <= y < height && 0 <= x < 4 * width ==> #[trigger] one[y * stride + x] == other[y
                * stride + x],
    ensures
        packed(one, width, height, stride) == packed(other, width, height, stride),
{
    let a = packed(one, width, height, stride);
    let b = packed(other, width, height, stride);
    let tight = 4 * width;
    assert forall|i: int| 0 <= i < a.len() implies a[i] == b[i] by {
        let y = i / tight;
        let x = i % tight;
        assert(0 <= y < height && 0 <= x < tight) by (nonlinear_arith)
            requires
                0 <= i < height * tight,
                tight > 0,
                y == i / tight,
                x == i % tight,
        ;
        assert(one[y * stride + x] == other[y * stride + x]);
    }
    assert(a =~= b);
}

/// A plane without padding becomes a frame of the same samples, apart from alpha.
pub proof fn tight_planes_are_copied(src: Seq<u8>, width: int, height: int, i: int)
    requires
        width > 0,
        height > 0,
        0 <= i < packed(src, width, height, 4 * width).len(),
        i % 4 != 3,
    ensures
        packed(src, width, height, 4 * width)[i] == src[i],
{
    let tight = 4 * width;
    assert((i / tight) * tight + i % tight == i) by (nonlinear_arith)
        requires
            tight > 0,
    ;
}

} // verus!
