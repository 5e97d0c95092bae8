use std::path::PathBuf;

use face_detection_server::admission::{check_upload, AdmissionError, MediaKind};
use face_detection_server::image_queue::{ImageQueue, QUEUE_SIZE};
use face_detection_server::scheduler::{next_action, JobAction, JobStage, StageOutcome};
use image::ImageFormat;

#[test]
fn drain_returns_jobs_in_push_order() {
    let mut q = ImageQueue::new();
    let a = q.push(PathBuf::from("/tmp/a"), ImageFormat::Png);
    let b = q.push(PathBuf::from("/tmp/b"), ImageFormat::Jpeg);
    let c = q.push(PathBuf::from("/tmp/c"), ImageFormat::Png);
    let items = q.drain();
    let ids: Vec<_> = items.iter().map(|i| i.id).collect();
    assert_eq!(ids, vec![a, b, c]);
    assert_eq!(items[1].image_location, PathBuf::from("/tmp/b"));
    assert_eq!(items[1].format, ImageFormat::Jpeg);
    assert_ne!(a, b);
    assert!(q.drain().is_empty());
}

#[test]
fn drain_on_empty_queue_is_empty() {
    let mut q = ImageQueue::new();
    assert!(q.drain().is_empty());
}

#[test]
fn queue_full_only_above_capacity() {
    let mut q = ImageQueue::new();
    for _ in 0..QUEUE_SIZE {
        q.push(PathBuf::from("/tmp/x"), ImageFormat::Png);
    }
    assert!(!q.is_full());
    q.push(PathBuf::from("/tmp/x"), ImageFormat::Png);
    assert!(q.is_full());
    assert_eq!(q.drain().len(), 10_001);
    assert!(!q.is_full());
}

#[test]
fn job_stages_advance_on_success() {
    assert_eq!(next_action(JobStage::Open, StageOutcome::Succeeded), JobAction::Run(JobStage::Decode));
    assert_eq!(
        next_action(JobStage::FlushResult, StageOutcome::Succeeded),
        JobAction::Run(JobStage::RemoveStaged)
    );
    assert_eq!(next_action(JobStage::RemoveStaged, StageOutcome::Succeeded), JobAction::Finished);
}

#[test]
fn failed_stage_goes_to_cleanup_and_failed_cleanup_is_fatal() {
    assert_eq!(
        next_action(JobStage::Decode, StageOutcome::Failed),
        JobAction::Run(JobStage::RemoveStaged)
    );
    assert_eq!(
        next_action(JobStage::Inference, StageOutcome::Failed),
        JobAction::Run(JobStage::RemoveStaged)
    );
    assert_eq!(next_action(JobStage::RemoveStaged, StageOutcome::Failed), JobAction::Fatal);
}

#[test]
fn upload_admission_checks() {
    let q = ImageQueue::new();
    let png = Some(ImageFormat::Png);
    assert_eq!(check_upload(None, png, 10, &q), Err(AdmissionError::ContentTypeMissing));
    assert_eq!(
        check_upload(Some(MediaKind::Other), png, 10, &q),
        Err(AdmissionError::ContentTypeUnsupported)
    );
    assert_eq!(check_upload(Some(MediaKind::Png), None, 10, &q), Err(AdmissionError::FormatUnknown));
    assert_eq!(check_upload(Some(MediaKind::Png), png, 0, &q), Err(AdmissionError::EmptyFile));
    assert_eq!(check_upload(Some(MediaKind::Jpeg), Some(ImageFormat::Jpeg), 5, &q), Ok(ImageFormat::Jpeg));
    assert_eq!(AdmissionError::QueueFull.status_code(), 503);
    assert_eq!(AdmissionError::StoreFailed.status_code(), 500);
    assert_eq!(AdmissionError::EmptyFile.status_code(), 400);
}

#[test]
fn upload_rejected_when_queue_full() {
    let mut q = ImageQueue::new();
    for _ in 0..=QUEUE_SIZE {
        q.push(PathBuf::from("/tmp/x"), ImageFormat::Png);
    }
    assert_eq!(
        check_upload(Some(MediaKind::Png), Some(ImageFormat::Png), 10, &q),
        Err(AdmissionError::QueueFull)
    );
}
