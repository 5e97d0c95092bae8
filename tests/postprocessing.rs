use face_detection_server::geometry::Bbox;
use face_detection_server::nms::Candidate;
use face_detection_server::postprocess::{
    filter_candidates, post_process, sort_by_confidence, OutputError, CONFIDENCE_THRESHOLD,
};
use face_detection_server::remap::{
    get_bbox_pixel_locations, map_bboxes_to_bbox_with_pixels, BboxPixels, Detection,
    COORD_SCALE,
};

const S: i32 = COORD_SCALE as i32;

#[test]
fn filter_drops_threshold_and_keeps_above() {
    let confidences = vec![500_000u32, 510_000];
    let boxes = vec![0, 0, 10, 10, 20, 20, 30, 30];
    let kept = filter_candidates(&confidences, &boxes, CONFIDENCE_THRESHOLD);
    assert_eq!(
        kept,
        vec![Candidate { bbox: Bbox { x1: 20, y1: 20, x2: 30, y2: 30 }, confidence: 510_000 }]
    );
}

#[test]
fn post_process_filters_sorts_and_suppresses() {
    let confidences = vec![600_000u32, 500_000, 900_000, 700_000];
    let boxes = vec![1, 1, 9, 9, 50, 50, 60, 60, 0, 0, 10, 10, 40, 40, 45, 45];
    let out = post_process(&confidences, &boxes).unwrap();
    assert_eq!(
        out,
        vec![
            Candidate { bbox: Bbox { x1: 0, y1: 0, x2: 10, y2: 10 }, confidence: 900_000 },
            Candidate { bbox: Bbox { x1: 40, y1: 40, x2: 45, y2: 45 }, confidence: 700_000 },
        ]
    );
}

#[test]
fn post_process_rejects_mismatched_shapes() {
    let confidences = vec![600_000u32, 700_000];
    assert_eq!(post_process(&confidences, &vec![0, 0, 1, 1]), Err(OutputError::ShapeMismatch));
    assert_eq!(
        post_process(&confidences, &vec![0, 0, 1, 1, 2, 2, 3]),
        Err(OutputError::ShapeMismatch)
    );
    assert_eq!(post_process(&vec![], &vec![]), Ok(vec![]));
}

#[test]
fn sort_orders_by_ascending_confidence() {
    let b = Bbox { x1: 0, y1: 0, x2: 1, y2: 1 };
    let v = vec![
        Candidate { bbox: b, confidence: 9 },
        Candidate { bbox: b, confidence: 3 },
        Candidate { bbox: b, confidence: 5 },
    ];
    let confs: Vec<u32> = sort_by_confidence(v).iter().map(|c| c.confidence).collect();
    assert_eq!(confs, vec![3, 5, 9]);
}

#[test]
fn remap_square_on_square_is_plain_scale() {
    let b = Bbox { x1: S / 4, y1: S / 2, x2: S, y2: S * 3 / 4 };
    let r = get_bbox_pixel_locations(200, 200, 100, 100, b);
    assert_eq!(r, BboxPixels { x1: 50, y1: 100, x2: 200, y2: 150 });
}

#[test]
fn remap_wide_source_adds_horizontal_offset() {
    let b = Bbox { x1: 0, y1: 0, x2: S, y2: S / 2 };
    let r = get_bbox_pixel_locations(200, 100, 100, 100, b);
    assert_eq!(r, BboxPixels { x1: 50, y1: 0, x2: 150, y2: 50 });
    // inverse: pixel 50 is detector x = (50 - 50) / 100 = 0, pixel 150 is (150 - 50) / 100 = 1
    assert_eq!((r.x2 as i64 - 50) * COORD_SCALE / 100, S as i64);
}

#[test]
fn remap_tall_source_adds_vertical_offset() {
    let b = Bbox { x1: 0, y1: 0, x2: S, y2: S };
    let r = get_bbox_pixel_locations(100, 200, 100, 100, b);
    assert_eq!(r, BboxPixels { x1: 0, y1: 50, x2: 100, y2: 150 });
}

#[test]
fn remap_truncates_and_clamps() {
    let b = Bbox { x1: -S, y1: S / 3, x2: S, y2: S };
    let r = get_bbox_pixel_locations(10, 10, 1, 1, b);
    assert_eq!(r, BboxPixels { x1: 0, y1: 3, x2: 10, y2: 10 });
}

#[test]
fn map_uses_detector_input_size() {
    let c = Candidate { bbox: Bbox { x1: 0, y1: 0, x2: S / 2, y2: S / 2 }, confidence: 800_000 };
    // 640x480 matches the detector ratio: direct scale
    assert_eq!(
        map_bboxes_to_bbox_with_pixels(640, 480, vec![c]),
        vec![Detection { bbox: BboxPixels { x1: 0, y1: 0, x2: 320, y2: 240 }, confidence: 800_000 }]
    );
    // 960x480 is wider than 4:3: the detector covers a centred 640 pixels
    assert_eq!(
        map_bboxes_to_bbox_with_pixels(960, 480, vec![c]),
        vec![Detection { bbox: BboxPixels { x1: 160, y1: 0, x2: 480, y2: 240 }, confidence: 800_000 }]
    );
}
