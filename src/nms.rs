use vstd::prelude::*;

use crate::geometry::{
    area, disjoint, iou_above, iou_exceeds, lemma_iou_symmetric, lemma_overlap_bounded, overlap_area,
    union_area, Bbox, IOU_SCALE,
};

verus! {

/// A candidate box in detector space with its confidence, in units where
/// `CONFIDENCE_SCALE` stands for 1.0.
#[derive(Clone, Copy, Debug, PartialEq, Eq, Structural)]
pub struct Candidate {
    pub bbox: Bbox,
    pub confidence: u32,
}

/// `c` overlaps none of `selected` by more than `max_iou`.
pub open spec fn compatible(c: Candidate, selected: Seq<Candidate>, max_iou: int) -> bool {
    forall|k: int| 0 <= k < selected.len() ==> !iou_exceeds(c.bbox, #[trigger] selected[k].bbox, max_iou)
}

/// Greedy suppression: the last pending candidate is taken next, and joins `selected`
/// when it is compatible with every box selected so far.
pub open spec fn nms_from(pending: Seq<Candidate>, selected: Seq<Candidate>, max_iou: int) -> Seq<Candidate>
    decreases pending.len(),
{
    if pending.len() == 0 {
        selected
    } else {
        let c = pending.last();
        let next = if compatible(c, selected, max_iou) {
            selected.push(c)
        } else {
            selected
        };
        nms_from(pending.drop_last(), next, max_iou)
    }
}

/// Non-maximum suppression of a list whose most confident candidate is last.
pub open spec fn nms(sorted: Seq<Candidate>, max_iou: int) -> Seq<Candidate> {
    nms_from(sorted, Seq::empty(), max_iou)
}

/// No two distinct entries of `s` overlap by more than `max_iou`.
pub open spec fn pairwise_separated(s: Seq<Candidate>, max_iou: int) -> bool {
    forall|i: int, j: int|
        0 <= i < s.len() && 0 <= j < s.len() && i != j ==> !iou_exceeds(
            #[trigger] s[i].bbox,
            #[trigger] s[j].bbox,
            max_iou,
        )
}

/// Every entry of `s` is compatible with every entry of `t`.
pub open spec fn cross_separated(s: Seq<Candidate>, t: Seq<Candidate>, max_iou: int) -> bool {
    forall|i: int, j: int|
        0 <= i < s.len() && 0 <= j < t.len() ==> !iou_exceeds(
            #[trigger] s[i].bbox,
            #[trigger] t[j].bbox,
            max_iou,
        )
}

/// Run non-maximum suppression on candidates sorted in ascending order of confidence.
///
/// The most confident remaining candidate is popped from the back; it is kept when its
/// IoU with every candidate kept so far is at most `max_iou / IOU_SCALE`.
pub fn non_maximum_suppression(sorted_bboxes_with_confidences: Vec<Candidate>, max_iou: u32) -> (r:
    Vec<Candidate>)
    ensures
        r@ == nms(sorted_bboxes_with_confidences@, max_iou as int),
{
    let mut pending = sorted_bboxes_with_confidences;
    let mut selected: Vec<Candidate> = Vec::new();
    while pending.len() > 0
        invariant
            nms_from(pending@, selected@, max_iou as int) == nms(
                sorted_bboxes_with_confidences@,
                max_iou as int,
            ),
        decreases pending.len(),
    {
        let ghost before = pending@;
        let candidate = pending.pop().unwrap();
        assert(pending@ == before.drop_last());
        let mut keep = true;
        let mut k: usize = 0;
        while k < selected.len()
            invariant
                k <= selected.len(),
                keep == (forall|j: int| 0 <= j < k ==> !iou_exceeds(candidate.bbox, #[trigger] selected@[j].bbox, max_iou as int)),
            decreases selected.len() - k,
        {
            if iou_above(&candidate.bbox, &selected[k].bbox, max_iou) {
                keep = false;
                proof {
                    assert(!(forall|j: int| 0 <= j < k + 1 ==> !iou_exceeds(candidate.bbox, #[trigger] selected@[j].bbox, max_iou as int)));
                }
                k = selected.len();
            } else {
                k = k + 1;
            }
        }
        assert(keep == compatible(candidate, selected@, max_iou as int));
        if keep {
            selected.push(candidate);
        }
    }
    selected
}

proof fn lemma_nms_from_separated(pending: Seq<Candidate>, selected: Seq<Candidate>, max_iou: int)
    requires
        forall|i: int, j: int|
            0 <= i < j < selected.len() ==> !iou_exceeds(#[trigger] selected[j].bbox, #[trigger] selected[i].bbox, max_iou),
    ensures
        forall|i: int, j: int|
            0 <= i < j < nms_from(pending, selected, max_iou).len() ==> !iou_exceeds(
                #[trigger] nms_from(pending, selected, max_iou)[j].bbox,
                #[trigger] nms_from(pending, selected, max_iou)[i].bbox,
                max_iou,
            ),
    decreases pending.len(),
{
    if pending.len() > 0 {
        let c = pending.last();
        if compatible(c, selected, max_iou) {
            let next = selected.push(c);
            assert forall|i: int, j: int| 0 <= i < j < next.len() implies !iou_exceeds(#[trigger] next[j].bbox, #[trigger] next[i].bbox, max_iou) by {
                if j == selected.len() {
                    assert(next[i] == selected[i]);
                } else {
                    assert(next[i] == selected[i]);
                    assert(next[j] == selected[j]);
                }
            }
            lemma_nms_from_separated(pending.drop_last(), next, max_iou);
            assert(nms_from(pending, selected, max_iou) == nms_from(pending.drop_last(), next, max_iou));
        } else {
            lemma_nms_from_separated(pending.drop_last(), selected, max_iou);
            assert(nms_from(pending, selected, max_iou) == nms_from(pending.drop_last(), selected, max_iou));
        }
    } else {
        assert(nms_from(pending, selected, max_iou) == selected);
    }
}

/// The output of non-maximum suppression never holds two boxes whose IoU exceeds the
/// threshold.
pub proof fn lemma_nms_output_separated(sorted: Seq<Candidate>, max_iou: int)
    ensures
        pairwise_separated(nms(sorted, max_iou), max_iou),
{
    let r = nms(sorted, max_iou);
    lemma_nms_from_separated(sorted, Seq::empty(), max_iou);
    assert forall|i: int, j: int| 0 <= i < r.len() && 0 <= j < r.len() && i != j implies !iou_exceeds(
        #[trigger] r[i].bbox,
        #[trigger] r[j].bbox,
        max_iou,
    ) by {
        lemma_iou_symmetric(r[i].bbox, r[j].bbox, max_iou);
    }
}

proof fn lemma_nms_from_keeps_all(pending: Seq<Candidate>, selected: Seq<Candidate>, max_iou: int)
    requires
        pairwise_separated(pending, max_iou),
        cross_separated(pending, selected, max_iou),
    ensures
        nms_from(pending, selected, max_iou) == selected + pending.reverse(),
    decreases pending.len(),
{
    if pending.len() == 0 {
        assert(selected + pending.reverse() =~= selected);
    } else {
        let n = pending.len() - 1;
        let c = pending.last();
        assert(compatible(c, selected, max_iou)) by {
            assert forall|k: int| 0 <= k < selected.len() implies !iou_exceeds(c.bbox, #[trigger] selected[k].bbox, max_iou) by {
                assert(!iou_exceeds(pending[n].bbox, selected[k].bbox, max_iou));
            }
        }
        let next = selected.push(c);
        let rest = pending.drop_last();
        assert(cross_separated(rest, next, max_iou)) by {
            assert forall|i: int, j: int| 0 <= i < rest.len() && 0 <= j < next.len() implies !iou_exceeds(
                #[trigger] rest[i].bbox,
                #[trigger] next[j].bbox,
                max_iou,
            ) by {
                assert(rest[i] == pending[i]);
                if j == selected.len() {
                    assert(!iou_exceeds(pending[i].bbox, pending[n].bbox, max_iou));
                } else {
                    assert(next[j] == selected[j]);
                }
            }
        }
        assert(pairwise_separated(rest, max_iou)) by {
            assert forall|i: int, j: int| 0 <= i < rest.len() && 0 <= j < rest.len() && i != j implies !iou_exceeds(
                #[trigger] rest[i].bbox,
                #[trigger] rest[j].bbox,
                max_iou,
            ) by {
                assert(rest[i] == pending[i] && rest[j] == pending[j]);
            }
        }
        lemma_nms_from_keeps_all(rest, next, max_iou);
        assert(next + rest.reverse() =~= selected + pending.reverse());
    }
}

/// A list with no two overlapping boxes passes through suppression whole: each of its
/// candidates is kept, in the order in which they are taken from the back.
pub proof fn lemma_nms_keeps_separated(sorted: Seq<Candidate>, max_iou: int)
    requires
        pairwise_separated(sorted, max_iou),
    ensures
        nms(sorted, max_iou) == sorted.reverse(),
{
    lemma_nms_from_keeps_all(sorted, Seq::empty(), max_iou);
    assert(Seq::<Candidate>::empty() + sorted.reverse() =~= sorted.reverse());
}

/// Running suppression again on its own output keeps every candidate: the result holds
/// the same candidates, as often as before, taken in reverse order.
pub proof fn lemma_nms_idempotent(sorted: Seq<Candidate>, max_iou: int)
    ensures
        nms(nms(sorted, max_iou), max_iou) == nms(sorted, max_iou).reverse(),
        nms(nms(sorted, max_iou), max_iou).to_multiset() == nms(sorted, max_iou).to_multiset(),
        nms(nms(sorted, max_iou), max_iou).to_set() == nms(sorted, max_iou).to_set(),
{
    let r = nms(sorted, max_iou);
    lemma_nms_output_separated(sorted, max_iou);
    lemma_nms_keeps_separated(r, max_iou);
    r.lemma_reverse_to_multiset();
    assert(r.reverse().to_set() =~= r.to_set()) by {
        assert forall|x: Candidate| r.reverse().contains(x) <==> r.contains(x) by {
            if r.contains(x) {
                let i = choose|i: int| 0 <= i < r.len() && r[i] == x;
                assert(r.reverse()[r.len() - 1 - i] == x);
            }
            if r.reverse().contains(x) {
                let i = choose|i: int| 0 <= i < r.len() && r.reverse()[i] == x;
                assert(r[r.len() - 1 - i] == x);
            }
        }
    }
}

/// Boxes that pairwise share no region all survive suppression, whatever their order.
pub proof fn lemma_nms_disjoint_all_kept(sorted: Seq<Candidate>, max_iou: u32)
    requires
        forall|i: int, j: int|
            0 <= i < sorted.len() && 0 <= j < sorted.len() && i != j ==> disjoint(
                #[trigger] sorted[i].bbox,
                #[trigger] sorted[j].bbox,
            ),
    ensures
        nms(sorted, max_iou as int) == sorted.reverse(),
{
    assert forall|i: int, j: int| 0 <= i < sorted.len() && 0 <= j < sorted.len() && i != j implies !iou_exceeds(
        #[trigger] sorted[i].bbox,
        #[trigger] sorted[j].bbox,
        max_iou as int,
    ) by {
        lemma_overlap_bounded(sorted[i].bbox, sorted[j].bbox);
        let u = union_area(sorted[i].bbox, sorted[j].bbox);
        assert(max_iou * u >= 0) by (nonlinear_arith)
            requires u >= 0, max_iou >= 0;
    }
    lemma_nms_keeps_separated(sorted, max_iou as int);
}

/// Of two candidates on the same box of positive area, listed with the more confident
/// one last, suppression keeps only the more confident one (for any threshold below 1).
pub proof fn lemma_nms_same_box_keeps_higher(lower: Candidate, higher: Candidate, max_iou: u32)
    requires
        lower.bbox == higher.bbox,
        area(higher.bbox) > 0,
        max_iou < IOU_SCALE,
    ensures
        nms(seq![lower, higher], max_iou as int) == seq![higher],
{
    let b = higher.bbox;
    assert(overlap_area(b, b) == area(b)) by {
        assert(crate::geometry::intersection(b, b) == b);
    }
    let a = area(b);
    assert(a * IOU_SCALE > max_iou * a) by (nonlinear_arith)
        requires a > 0, max_iou < IOU_SCALE;
    let s = seq![lower, higher];
    let step1 = Seq::<Candidate>::empty().push(higher);
    assert(s.drop_last() =~= seq![lower]);
    assert(!compatible(lower, step1, max_iou as int)) by {
        assert(step1[0] == higher);
    }
    assert(seq![lower].drop_last() =~= Seq::<Candidate>::empty());
    assert(step1 =~= seq![higher]);
    assert(compatible(higher, Seq::empty(), max_iou as int));
    assert(nms_from(s, Seq::empty(), max_iou as int) == nms_from(seq![lower], step1, max_iou as int));
    assert(nms_from(seq![lower], step1, max_iou as int) == nms_from(Seq::empty(), step1, max_iou as int));
    assert(nms_from(Seq::empty(), step1, max_iou as int) == step1);
}

} // verus!
