use vstd::prelude::*;

use crate::geometry::Bbox;
use crate::nms::{nms, non_maximum_suppression, Candidate};

verus! {

broadcast use vstd::seq_lib::group_to_multiset_ensures;

/// Fixed-point units of one confidence: `CONFIDENCE_SCALE` stands for 1.0.
pub const CONFIDENCE_SCALE: u32 = 1_000_000;

/// Candidates must be strictly more confident than this (0.5) to be considered.
pub const CONFIDENCE_THRESHOLD: u32 = 500_000;

/// Candidates overlapping a more confident kept box with IoU above this (0.5) are dropped.
pub const MAX_IOU: u32 = 500_000;

/// The detector's two outputs do not describe the same candidates.
#[derive(Clone, Copy, Debug, PartialEq, Eq, Structural)]
pub enum OutputError {
    /// The box output does not hold exactly four coordinates per confidence.
    ShapeMismatch,
}

/// Candidate `i` pairs `confidences[i]` with the four coordinates `boxes[4i..4i+4]`.
pub open spec fn candidates_of(confidences: Seq<u32>, boxes: Seq<i32>) -> Seq<Candidate> {
    Seq::new(
        confidences.len(),
        |i: int|
            Candidate {
                bbox: Bbox {
                    x1: boxes[4 * i],
                    y1: boxes[4 * i + 1],
                    x2: boxes[4 * i + 2],
                    y2: boxes[4 * i + 3],
                },
                confidence: confidences[i],
            },
    )
}

/// The candidates of `s` whose confidence is strictly above `threshold`, in order.
pub open spec fn confident(s: Seq<Candidate>, threshold: int) -> Seq<Candidate>
    decreases s.len(),
{
    if s.len() == 0 {
        s
    } else {
        let r = confident(s.drop_last(), threshold);
        if s.last().confidence > threshold {
            r.push(s.last())
        } else {
            r
        }
    }
}

pub open spec fn sorted_by_confidence(s: Seq<Candidate>) -> bool {
    forall|i: int, j: int| 0 <= i < j < s.len() ==> #[trigger] s[i].confidence <= #[trigger] s[j].confidence
}

/// Pair each confidence with its box and keep the candidates above `threshold`.
pub fn filter_candidates(confidences: &Vec<u32>, boxes: &Vec<i32>, threshold: u32) -> (r: Vec<Candidate>)
    requires
        boxes@.len() == 4 * confidences@.len(),
    ensures
        r@ == confident(candidates_of(confidences@, boxes@), threshold as int),
{
    let ghost all = candidates_of(confidences@, boxes@);
    let mut out: Vec<Candidate> = Vec::new();
    let n_coords: usize = boxes.len();
    let mut i: usize = 0;
    while i < confidences.len()
        invariant
            i <= confidences@.len(),
            n_coords == boxes@.len(),
            boxes@.len() == 4 * confidences@.len(),
            all == candidates_of(confidences@, boxes@),
            out@ == confident(all.take(i as int), threshold as int),
        decreases confidences@.len() - i,
    {
        assert(4 * i + 3 < boxes@.len());
        let base: usize = 4 * i;
        let c = Candidate {
            bbox: Bbox {
                x1: boxes[base],
                y1: boxes[base + 1],
                x2: boxes[base + 2],
                y2: boxes[base + 3],
            },
            confidence: confidences[i],
        };
        assert(all.take(i + 1).drop_last() =~= all.take(i as int));
        assert(all.take(i + 1).last() == c);
        if c.confidence > threshold {
            out.push(c);
        }
        i = i + 1;
    }
    assert(all.take(confidences@.len() as int) =~= all);
    out
}

proof fn lemma_insert_to_multiset(s: Seq<Candidate>, j: int, c: Candidate)
    requires
        0 <= j <= s.len(),
    ensures
        s.insert(j, c).to_multiset() =~= s.to_multiset().insert(c),
{
    let t = s.insert(j, c);
    assert(t.remove(j) =~= s);
    assert(t[j] == c);
    assert(t.contains(c));
}

/// Sort candidates in ascending order of confidence; equal confidences keep their order.
pub fn sort_by_confidence(candidates: Vec<Candidate>) -> (r: Vec<Candidate>)
    ensures
        sorted_by_confidence(r@),
        r@.to_multiset() == candidates@.to_multiset(),
{
    let mut out: Vec<Candidate> = Vec::new();
    let mut i: usize = 0;
    while i < candidates.len()
        invariant
            i <= candidates@.len(),
            sorted_by_confidence(out@),
            out@.to_multiset() == candidates@.take(i as int).to_multiset(),
        decreases candidates@.len() - i,
    {
        let c = candidates[i];
        let mut j: usize = 0;
        while j < out.len() && out[j].confidence <= c.confidence
            invariant
                j <= out@.len(),
                forall|k: int| 0 <= k < j ==> #[trigger] out@[k].confidence <= c.confidence,
            decreases out@.len() - j,
        {
            j = j + 1;
        }
        let ghost before = out@;
        proof {
            lemma_insert_to_multiset(before, j as int, c);
            assert(candidates@.take(i + 1) =~= candidates@.take(i as int).push(c));
        }
        out.insert(j, c);
        assert(out@ == before.insert(j as int, c));
        assert(sorted_by_confidence(out@)) by {
            assert forall|a: int, b: int| 0 <= a < b < out@.len() implies #[trigger] out@[a].confidence
                <= #[trigger] out@[b].confidence by {
                if b < j {
                } else if b == j {
                } else if a < j {
                    assert(before[b - 1].confidence >= before[j as int].confidence || b - 1 == j);
                } else if a == j {
                    assert(before[b - 1].confidence >= before[j as int].confidence);
                } else {
                    assert(before[a - 1].confidence <= before[b - 1].confidence);
                }
            }
        }
        i = i + 1;
    }
    assert(candidates@.take(candidates@.len() as int) =~= candidates@);
    out
}

/// Turn the detector's raw output into the boxes that survive filtering and
/// suppression.
///
/// `confidences[i]` is candidate `i`'s positive-class score and `boxes[4i..4i+4]` its box.
/// The candidates above `CONFIDENCE_THRESHOLD` are sorted in ascending order of
/// confidence and passed through non-maximum suppression with `MAX_IOU`.
pub fn post_process(confidences: &Vec<u32>, boxes: &Vec<i32>) -> (r: Result<
    Vec<Candidate>,
    OutputError,
>)
    ensures
        r is Err <==> boxes@.len() != 4 * confidences@.len(),
        r matches Ok(out) ==> exists|s: Seq<Candidate>|
            sorted_by_confidence(s) && s.to_multiset() == confident(
                candidates_of(confidences@, boxes@),
                CONFIDENCE_THRESHOLD as int,
            ).to_multiset() && out@ == nms(s, MAX_IOU as int),
{
    if boxes.len() % 4 != 0 || boxes.len() / 4 != confidences.len() {
        return Err(OutputError::ShapeMismatch);
    }
    let kept = filter_candidates(confidences, boxes, CONFIDENCE_THRESHOLD);
    let sorted = sort_by_confidence(kept);
    let ghost s = sorted@;
    let selected = non_maximum_suppression(sorted, MAX_IOU);
    assert(sorted_by_confidence(s));
    Ok(selected)
}

} // verus!
