use face_detection_server::geometry::{bbox_area, iou, iou_above, Bbox};
use face_detection_server::nms::{non_maximum_suppression, Candidate};

fn bx(x1: i32, y1: i32, x2: i32, y2: i32) -> Bbox {
    Bbox { x1, y1, x2, y2 }
}

fn cand(b: Bbox, confidence: u32) -> Candidate {
    Candidate { bbox: b, confidence }
}

#[test]
fn area_of_box_and_degenerate_box() {
    assert_eq!(bbox_area(&bx(0, 0, 10, 5)), 50);
    assert_eq!(bbox_area(&bx(10, 0, 0, 5)), 0);
    assert_eq!(bbox_area(&bx(0, 5, 10, 0)), 0);
}

#[test]
fn iou_of_box_with_itself_is_one() {
    let a = bx(2, 3, 12, 9);
    let r = iou(&a, &a);
    assert_eq!(r.overlap, 60);
    assert_eq!(r.union_size, 60);
    assert!(iou_above(&a, &a, 999_999));
}

#[test]
fn iou_of_disjoint_boxes_is_zero() {
    let a = bx(0, 0, 10, 10);
    let b = bx(20, 20, 30, 30);
    let r = iou(&a, &b);
    assert_eq!(r.overlap, 0);
    assert_eq!(r.union_size, 200);
    assert!(!iou_above(&a, &b, 0));
}

#[test]
fn iou_example_is_sixty_four_hundredths() {
    let a = bx(0, 0, 10, 10);
    let b = bx(1, 1, 9, 9);
    let r = iou(&a, &b);
    assert_eq!(r.overlap, 64);
    assert_eq!(r.union_size, 100);
    assert!(iou_above(&a, &b, 500_000));
    assert!(!iou_above(&a, &b, 640_000));
}

#[test]
fn nms_example_keeps_only_more_confident() {
    let a = cand(bx(0, 0, 10, 10), 900_000);
    let b = cand(bx(1, 1, 9, 9), 600_000);
    let out = non_maximum_suppression(vec![b, a], 500_000);
    assert_eq!(out, vec![a]);
}

#[test]
fn nms_keeps_all_disjoint_boxes_in_any_order() {
    let a = cand(bx(0, 0, 10, 10), 900_000);
    let b = cand(bx(10, 0, 20, 10), 600_000);
    let c = cand(bx(0, 20, 5, 25), 700_000);
    let out = non_maximum_suppression(vec![a, b, c], 500_000);
    assert_eq!(out, vec![c, b, a]);
    let out = non_maximum_suppression(vec![b, c, a], 0);
    assert_eq!(out, vec![a, c, b]);
}

#[test]
fn nms_on_identical_boxes_keeps_higher_confidence() {
    let low = cand(bx(0, 0, 10, 10), 600_000);
    let high = cand(bx(0, 0, 10, 10), 800_000);
    let out = non_maximum_suppression(vec![low, high], 500_000);
    assert_eq!(out, vec![high]);
}

#[test]
fn nms_is_idempotent_on_its_output() {
    let cands = vec![
        cand(bx(0, 0, 10, 10), 550_000),
        cand(bx(1, 1, 11, 11), 600_000),
        cand(bx(30, 30, 40, 40), 700_000),
        cand(bx(0, 0, 10, 9), 950_000),
    ];
    let once = non_maximum_suppression(cands, 500_000);
    assert_eq!(once.len(), 2);
    let twice = non_maximum_suppression(once.clone(), 500_000);
    let mut reversed = once.clone();
    reversed.reverse();
    assert_eq!(twice, reversed);
}

#[test]
fn nms_on_empty_list_is_empty() {
    assert!(non_maximum_suppression(vec![], 500_000).is_empty());
}
