use vstd::prelude::*;

use vstd::arithmetic::div_mod::lemma_div_multiples_vanish_quotient;

use crate::geometry::Bbox;
use crate::nms::Candidate;

verus! {

/// Width of the detector's input tensor, in pixels.
pub const ULTRA_INPUT_WIDTH: u32 = 640;

/// Height of the detector's input tensor, in pixels.
pub const ULTRA_INPUT_HEIGHT: u32 = 480;

/// Detector-space coordinates are fixed-point: `COORD_SCALE` stands for 1.0, the full
/// extent of the detector's input on that axis.
pub const COORD_SCALE: i64 = 1_000_000;

/// A box `[x_top_left, y_top_left, x_bottom_right, y_bottom_right]` in pixels of the
/// source image.
#[derive(Clone, Copy, Debug, PartialEq, Eq, Structural)]
pub struct BboxPixels {
    pub x1: u32,
    pub y1: u32,
    pub x2: u32,
    pub y2: u32,
}

/// A box in source-image pixels with the confidence of its detection.
#[derive(Clone, Copy, Debug, PartialEq, Eq, Structural)]
pub struct Detection {
    pub bbox: BboxPixels,
    pub confidence: u32,
}

/// `num / den` truncated to a pixel coordinate: negative values become 0 and values
/// past the range of `u32` become `u32::MAX`.
pub open spec fn truncate_pixel(num: int, den: int) -> u32 {
    if num < 0 {
        0
    } else if num / den > u32::MAX as int {
        u32::MAX
    } else {
        (num / den) as u32
    }
}

/// The source image is relatively wider than the detector input on this axis pair:
/// `own / other > d_own / d_other`.
pub open spec fn relatively_longer(own: int, other: int, d_own: int, d_other: int) -> bool {
    own * d_other > d_own * other
}

/// A coordinate scaled directly onto an image side of `len` pixels.
pub open spec fn direct_coord(c: int, len: int) -> u32 {
    truncate_pixel(c * len, COORD_SCALE as int)
}

/// A coordinate on the axis along which the source image is relatively longer than the
/// detector input: the detector covers a centred span of `d_own / d_other * other`
/// pixels, and what lies outside it on both sides is padding.
/// In closed form: `c / S * span + (own - span) / 2`.
pub open spec fn padded_coord(c: int, own: int, other: int, d_own: int, d_other: int) -> u32 {
    truncate_pixel(
        2 * c * d_own * other + COORD_SCALE * (own * d_other - d_own * other),
        2 * COORD_SCALE * d_other,
    )
}

/// Pixel x of detector coordinate `x` on an image `iw` x `ih` for a detector input
/// `dw` x `dh`.
pub open spec fn pixel_x(iw: int, ih: int, dw: int, dh: int, x: int) -> u32 {
    if relatively_longer(iw, ih, dw, dh) {
        padded_coord(x, iw, ih, dw, dh)
    } else {
        direct_coord(x, iw)
    }
}

/// Pixel y of detector coordinate `y`; the mirror image of `pixel_x`.
pub open spec fn pixel_y(iw: int, ih: int, dw: int, dh: int, y: int) -> u32 {
    if relatively_longer(ih, iw, dh, dw) {
        padded_coord(y, ih, iw, dh, dw)
    } else {
        direct_coord(y, ih)
    }
}

pub open spec fn pixel_box(iw: int, ih: int, dw: int, dh: int, b: Bbox) -> BboxPixels {
    BboxPixels {
        x1: pixel_x(iw, ih, dw, dh, b.x1 as int),
        y1: pixel_y(iw, ih, dw, dh, b.y1 as int),
        x2: pixel_x(iw, ih, dw, dh, b.x2 as int),
        y2: pixel_y(iw, ih, dw, dh, b.y2 as int),
    }
}

fn truncate_to_pixel(num: i128, den: i128) -> (r: u32)
    requires
        den > 0,
    ensures
        r == truncate_pixel(num as int, den as int),
{
    if num < 0 {
        return 0;
    }
    let q: u128 = num as u128 / den as u128;
    if q > u32::MAX as u128 {
        u32::MAX
    } else {
        q as u32
    }
}

fn scale_direct(c: i32, len: u32) -> (r: u32)
    ensures
        r == direct_coord(c as int, len as int),
{
    proof {
        let ci = c as int;
        let li = len as int;
        assert(-0x8000_0000 * 0x1_0000_0000 <= ci * li <= 0x8000_0000 * 0x1_0000_0000) by (nonlinear_arith)
            requires -0x8000_0000 <= ci < 0x8000_0000, 0 <= li < 0x1_0000_0000;
    }
    truncate_to_pixel(c as i128 * len as i128, COORD_SCALE as i128)
}

fn scale_padded(c: i32, own: u32, other: u32, d_own: u32, d_other: u32) -> (r: u32)
    requires
        d_other > 0,
    ensures
        r == padded_coord(c as int, own as int, other as int, d_own as int, d_other as int),
{
    proof {
        let ci = c as int;
        let span = d_own as int * other as int;
        let wide = own as int * d_other as int;
        assert(0 <= span < 0x1_0000_0000_0000_0000 && 0 <= wide < 0x1_0000_0000_0000_0000) by (nonlinear_arith)
            requires 0 <= d_own < 0x1_0000_0000, 0 <= other < 0x1_0000_0000, 0 <= own < 0x1_0000_0000,
                0 <= d_other < 0x1_0000_0000, span == d_own * other, wide == own * d_other;
        assert(-0x1_0000_0000_0000_0000_0000_0000 <= 2 * ci * span <= 0x1_0000_0000_0000_0000_0000_0000)
            by (nonlinear_arith)
            requires -0x8000_0000 <= ci < 0x8000_0000, 0 <= span < 0x1_0000_0000_0000_0000;
        assert(2 * ci * span == 2 * ci * d_own * other) by (nonlinear_arith)
            requires span == d_own * other;
        assert(0 < 2 * 1_000_000 * (d_other as int) < 0x1_0000_0000_0000_0000) by (nonlinear_arith)
            requires 0 < d_other < 0x1_0000_0000;
    }
    let span_x: i128 = d_own as i128 * other as i128;
    let wide_x: i128 = own as i128 * d_other as i128;
    let num: i128 = 2 * c as i128 * span_x + COORD_SCALE as i128 * (wide_x - span_x);
    let den: i128 = 2 * COORD_SCALE as i128 * d_other as i128;
    truncate_to_pixel(num, den)
}

/// Map a detector-space box onto the pixels of the source image.
///
/// The detector's input is taken to cover the image centred, with padding along the
/// axis on which the image is relatively longer; when the aspect ratios agree both
/// axes scale directly. Coordinates are truncated, not rounded.
pub fn get_bbox_pixel_locations(
    image_width: u32,
    image_height: u32,
    detector_width: u32,
    detector_height: u32,
    output_bbox: Bbox,
) -> (r: BboxPixels)
    requires
        detector_width > 0,
        detector_height > 0,
    ensures
        r == pixel_box(
            image_width as int,
            image_height as int,
            detector_width as int,
            detector_height as int,
            output_bbox,
        ),
{
    proof {
        assert((image_width as int) * (detector_height as int) <= 0xffff_ffff * 0xffff_ffff)
            by (nonlinear_arith)
            requires image_width <= 0xffff_ffffu32, detector_height <= 0xffff_ffffu32;
        assert((detector_width as int) * (image_height as int) <= 0xffff_ffff * 0xffff_ffff)
            by (nonlinear_arith)
            requires detector_width <= 0xffff_ffffu32, image_height <= 0xffff_ffffu32;
    }
    let wide: u64 = image_width as u64 * detector_height as u64;
    let tall: u64 = detector_width as u64 * image_height as u64;
    if wide > tall {
        BboxPixels {
            x1: scale_padded(output_bbox.x1, image_width, image_height, detector_width, detector_height),
            y1: scale_direct(output_bbox.y1, image_height),
            x2: scale_padded(output_bbox.x2, image_width, image_height, detector_width, detector_height),
            y2: scale_direct(output_bbox.y2, image_height),
        }
    } else if wide < tall {
        BboxPixels {
            x1: scale_direct(output_bbox.x1, image_width),
            y1: scale_padded(output_bbox.y1, image_height, image_width, detector_height, detector_width),
            x2: scale_direct(output_bbox.x2, image_width),
            y2: scale_padded(output_bbox.y2, image_height, image_width, detector_height, detector_width),
        }
    } else {
        BboxPixels {
            x1: scale_direct(output_bbox.x1, image_width),
            y1: scale_direct(output_bbox.y1, image_height),
            x2: scale_direct(output_bbox.x2, image_width),
            y2: scale_direct(output_bbox.y2, image_height),
        }
    }
}

/// Map every selected candidate onto the source image, keeping its confidence, for the
/// detector's fixed input size.
pub fn map_bboxes_to_bbox_with_pixels(
    image_width: u32,
    image_height: u32,
    sorted_bboxes_with_confidences: Vec<Candidate>,
) -> (r: Vec<Detection>)
    ensures
        r@.len() == sorted_bboxes_with_confidences@.len(),
        forall|i: int|
            0 <= i < r@.len() ==> (#[trigger] r@[i]).bbox == pixel_box(
                image_width as int,
                image_height as int,
                ULTRA_INPUT_WIDTH as int,
                ULTRA_INPUT_HEIGHT as int,
                sorted_bboxes_with_confidences@[i].bbox,
            ) && r@[i].confidence == sorted_bboxes_with_confidences@[i].confidence,
{
    let mut out: Vec<Detection> = Vec::new();
    let mut i: usize = 0;
    while i < sorted_bboxes_with_confidences.len()
        invariant
            i <= sorted_bboxes_with_confidences@.len(),
            out@.len() == i,
            forall|k: int|
                0 <= k < i ==> (#[trigger] out@[k]).bbox == pixel_box(
                    image_width as int,
                    image_height as int,
                    ULTRA_INPUT_WIDTH as int,
                    ULTRA_INPUT_HEIGHT as int,
                    sorted_bboxes_with_confidences@[k].bbox,
                ) && out@[k].confidence == sorted_bboxes_with_confidences@[k].confidence,
        decreases sorted_bboxes_with_confidences@.len() - i,
    {
        let c = sorted_bboxes_with_confidences[i];
        let bbox = get_bbox_pixel_locations(
            image_width,
            image_height,
            ULTRA_INPUT_WIDTH,
            ULTRA_INPUT_HEIGHT,
            c.bbox,
        );
        out.push(Detection { bbox, confidence: c.confidence });
        i = i + 1;
    }
    out
}

/// With a square detector input and a square source image, remapping is a plain scale
/// by the image side on both axes, with no offset.
pub proof fn lemma_remap_square_is_scale(side: int, d: int, b: Bbox)
    requires
        side >= 0,
        d > 0,
    ensures
        pixel_box(side, side, d, d, b) == (BboxPixels {
            x1: direct_coord(b.x1 as int, side),
            y1: direct_coord(b.y1 as int, side),
            x2: direct_coord(b.x2 as int, side),
            y2: direct_coord(b.y2 as int, side),
        }),
{
}

/// With a square detector input and a source image twice as wide as tall, x is scaled
/// by the height and shifted right by a quarter of the width (`x / S * h + h / 2`), y is
/// scaled directly; truncation leaves the exact position within one pixel, so the
/// detector coordinate can be recovered from the pixel.
pub proof fn lemma_remap_wide_source(h: int, d: int, x: int, y: int)
    requires
        h > 0,
        d > 0,
    ensures
        pixel_x(2 * h, h, d, d, x) == truncate_pixel(2 * x * h + COORD_SCALE * h, 2 * COORD_SCALE),
        pixel_y(2 * h, h, d, d, y) == direct_coord(y, h),
        ({
            let n = 2 * x * h + COORD_SCALE * h;
            let p = pixel_x(2 * h, h, d, d, x) as int;
            0 <= n && n / (2 * COORD_SCALE) <= u32::MAX ==> 2 * COORD_SCALE * p <= n < 2 * COORD_SCALE * (p + 1)
        }),
{
    let s = COORD_SCALE as int;
    assert(relatively_longer(2 * h, h, d, d)) by (nonlinear_arith)
        requires h > 0, d > 0;
    assert(!relatively_longer(h, 2 * h, d, d)) by (nonlinear_arith)
        requires h > 0, d > 0;
    let n = 2 * x * h + s * h;
    let full = 2 * x * d * h + s * (2 * h * d - d * h);
    assert(full == d * n) by (nonlinear_arith)
        requires full == 2 * x * d * h + s * (2 * h * d - d * h), n == 2 * x * h + s * h;
    assert(2 * s * d == d * (2 * s)) by (nonlinear_arith);
    if n >= 0 {
        lemma_div_multiples_vanish_quotient(d, n, 2 * s);
        let q = n / (2 * s);
        assert(2 * s * q <= n < 2 * s * (q + 1)) by (nonlinear_arith)
            requires q == n / (2 * s), s > 0, n >= 0;
    } else {
        assert(d * n < 0) by (nonlinear_arith)
            requires d > 0, n < 0;
    }
}

} // verus!
