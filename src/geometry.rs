use vstd::prelude::*;

verus! {

/// Fixed-point units of one IoU: an IoU threshold of `IOU_SCALE / 2` stands for 0.5.
pub const IOU_SCALE: u32 = 1_000_000;

/// A box `[x_top_left, y_top_left, x_bottom_right, y_bottom_right]` in integer
/// detector-space units. A box whose bottom-right corner lies above or left of its
/// top-left corner is degenerate and has area zero.
#[derive(Clone, Copy, Debug, PartialEq, Eq, Structural)]
pub struct Bbox {
    pub x1: i32,
    pub y1: i32,
    pub x2: i32,
    pub y2: i32,
}

/// Area of a box; zero when it is degenerate on either axis.
pub open spec fn area(b: Bbox) -> int {
    let w = b.x2 - b.x1;
    let h = b.y2 - b.y1;
    if w < 0 || h < 0 {
        0
    } else {
        w * h
    }
}

pub open spec fn max_i32(a: i32, b: i32) -> i32 {
    if a >= b { a } else { b }
}

pub open spec fn min_i32(a: i32, b: i32) -> i32 {
    if a <= b { a } else { b }
}

/// The box shared by `a` and `b`: per-axis maximum of the top-left corners and
/// minimum of the bottom-right corners (degenerate when they do not overlap).
pub open spec fn intersection(a: Bbox, b: Bbox) -> Bbox {
    Bbox {
        x1: max_i32(a.x1, b.x1),
        y1: max_i32(a.y1, b.y1),
        x2: min_i32(a.x2, b.x2),
        y2: min_i32(a.y2, b.y2),
    }
}

pub open spec fn overlap_area(a: Bbox, b: Bbox) -> int {
    area(intersection(a, b))
}

pub open spec fn union_area(a: Bbox, b: Bbox) -> int {
    area(a) + area(b) - overlap_area(a, b)
}

/// IoU(a, b) = overlap / union exceeds `max_iou / IOU_SCALE`. When the union is empty
/// the IoU is taken as zero, so it exceeds no non-negative threshold.
pub open spec fn iou_exceeds(a: Bbox, b: Bbox, max_iou: int) -> bool {
    overlap_area(a, b) * IOU_SCALE > max_iou * union_area(a, b)
}

/// The two boxes share no region of positive area.
pub open spec fn disjoint(a: Bbox, b: Bbox) -> bool {
    overlap_area(a, b) == 0
}

/// Intersection-over-union of two boxes, kept as an exact ratio `overlap / union`.
#[derive(Clone, Copy, Debug, PartialEq, Eq, Structural)]
pub struct Iou {
    pub overlap: u64,
    pub union_size: u128,
}

proof fn lemma_area_bounds(b: Bbox)
    ensures
        0 <= area(b) <= 0xffff_ffff_ffff_ffff,
{
    let w = b.x2 - b.x1;
    let h = b.y2 - b.y1;
    if w >= 0 && h >= 0 {
        assert(w * h <= 0xffff_ffff * 0xffff_ffff) by (nonlinear_arith)
            requires 0 <= w <= 0xffff_ffff, 0 <= h <= 0xffff_ffff;
        assert(w * h >= 0) by (nonlinear_arith)
            requires 0 <= w, 0 <= h;
    }
}

/// The shared region is no larger than either box.
pub proof fn lemma_overlap_bounded(a: Bbox, b: Bbox)
    ensures
        0 <= overlap_area(a, b) <= area(a),
        overlap_area(a, b) <= area(b),
        0 <= union_area(a, b),
        area(a) <= union_area(a, b),
{
    let i = intersection(a, b);
    lemma_area_bounds(i);
    lemma_area_bounds(a);
    lemma_area_bounds(b);
    let wi = i.x2 - i.x1;
    let hi = i.y2 - i.y1;
    if wi >= 0 && hi >= 0 {
        let wa = a.x2 - a.x1;
        let ha = a.y2 - a.y1;
        let wb = b.x2 - b.x1;
        let hb = b.y2 - b.y1;
        assert(wi * hi <= wa * ha) by (nonlinear_arith)
            requires 0 <= wi <= wa, 0 <= hi <= ha;
        assert(wi * hi <= wb * hb) by (nonlinear_arith)
            requires 0 <= wi <= wb, 0 <= hi <= hb;
    }
}

/// IoU does not depend on the order of its two boxes.
pub proof fn lemma_iou_symmetric(a: Bbox, b: Bbox, max_iou: int)
    ensures
        overlap_area(a, b) == overlap_area(b, a),
        union_area(a, b) == union_area(b, a),
        iou_exceeds(a, b, max_iou) == iou_exceeds(b, a, max_iou),
{
    assert(intersection(a, b) == intersection(b, a));
}

/// IoU(a, a) = 1 for a box of positive width and height, and IoU(a, b) = 0 for two
/// boxes without a shared region.
pub proof fn lemma_iou_identity_and_disjoint(a: Bbox, b: Bbox)
    ensures
        (a.x2 > a.x1 && a.y2 > a.y1) ==> (overlap_area(a, a) == union_area(a, a)
            && union_area(a, a) > 0),
        (a.x2 <= b.x1 || b.x2 <= a.x1 || a.y2 <= b.y1 || b.y2 <= a.y1) ==> overlap_area(a, b)
            == 0,
{
    assert(intersection(a, a) == a);
    if a.x2 > a.x1 && a.y2 > a.y1 {
        let w = a.x2 - a.x1;
        let h = a.y2 - a.y1;
        assert(w * h > 0) by (nonlinear_arith)
            requires w > 0, h > 0;
    }
    let i = intersection(a, b);
    if a.x2 <= b.x1 || b.x2 <= a.x1 || a.y2 <= b.y1 || b.y2 <= a.y1 {
        let wi = i.x2 - i.x1;
        let hi = i.y2 - i.y1;
        assert(wi <= 0 || hi <= 0);
        if wi >= 0 && hi >= 0 {
            assert(wi * hi == 0) by (nonlinear_arith)
                requires wi == 0 || hi == 0;
        }
    }
}

/// Area of a box, zero when degenerate.
pub fn bbox_area(bbox: &Bbox) -> (r: u64)
    ensures
        r == area(*bbox),
{
    let width: i64 = bbox.x2 as i64 - bbox.x1 as i64;
    let height: i64 = bbox.y2 as i64 - bbox.y1 as i64;
    if width < 0 || height < 0 {
        return 0;
    }
    proof {
        lemma_area_bounds(*bbox);
    }
    (width as u64) * (height as u64)
}

/// The exact intersection-over-union of two boxes.
pub fn iou(bbox_a: &Bbox, bbox_b: &Bbox) -> (r: Iou)
    ensures
        r.overlap == overlap_area(*bbox_a, *bbox_b),
        r.union_size == union_area(*bbox_a, *bbox_b),
{
    let overlap_box = Bbox {
        x1: if bbox_a.x1 >= bbox_b.x1 { bbox_a.x1 } else { bbox_b.x1 },
        y1: if bbox_a.y1 >= bbox_b.y1 { bbox_a.y1 } else { bbox_b.y1 },
        x2: if bbox_a.x2 <= bbox_b.x2 { bbox_a.x2 } else { bbox_b.x2 },
        y2: if bbox_a.y2 <= bbox_b.y2 { bbox_a.y2 } else { bbox_b.y2 },
    };
    let overlap = bbox_area(&overlap_box);
    let area_a = bbox_area(bbox_a);
    let area_b = bbox_area(bbox_b);
    proof {
        lemma_overlap_bounded(*bbox_a, *bbox_b);
    }
    Iou { overlap, union_size: area_a as u128 + area_b as u128 - overlap as u128 }
}

/// Whether IoU(bbox_a, bbox_b) is above `max_iou / IOU_SCALE`.
pub fn iou_above(bbox_a: &Bbox, bbox_b: &Bbox, max_iou: u32) -> (r: bool)
    ensures
        r == iou_exceeds(*bbox_a, *bbox_b, max_iou as int),
{
    let ratio = iou(bbox_a, bbox_b);
    proof {
        lemma_overlap_bounded(*bbox_a, *bbox_b);
        lemma_area_bounds(*bbox_a);
        lemma_area_bounds(*bbox_b);
        let u = ratio.union_size as int;
        let m = max_iou as int;
        assert(m * u <= 0xffff_ffff * 0x2_0000_0000_0000_0000) by (nonlinear_arith)
            requires 0 <= m <= 0xffff_ffff, 0 <= u <= 0x2_0000_0000_0000_0000;
        assert(m * u >= 0) by (nonlinear_arith)
            requires 0 <= m, 0 <= u;
    }
    let lhs: u128 = ratio.overlap as u128 * IOU_SCALE as u128;
    let rhs: u128 = max_iou as u128 * ratio.union_size;
    lhs > rhs
}

} // verus!
