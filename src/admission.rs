use vstd::prelude::*;

use image::ImageFormat;

use crate::image_queue::ImageQueue;

verus! {

/// The media type declared for an upload, as far as admission cares.
#[derive(Clone, Copy, Debug, PartialEq, Eq, Structural)]
pub enum MediaKind {
    Png,
    Jpeg,
    Other,
}

/// Why an upload was turned away.
#[derive(Clone, Copy, Debug, PartialEq, Eq, Structural)]
pub enum AdmissionError {
    /// No content type was declared.
    ContentTypeMissing,
    /// The content type is neither PNG nor JPEG.
    ContentTypeUnsupported,
    /// No image format is known for the content type.
    FormatUnknown,
    /// The uploaded file is empty.
    EmptyFile,
    /// The queue holds more than its capacity.
    QueueFull,
    /// The upload could not be kept in staging storage.
    StoreFailed,
}

impl AdmissionError {
    /// The HTTP status that reports this rejection: 503 when the queue is full, 500
    /// when staging failed, 400 for a bad upload.
    pub fn status_code(&self) -> (r: u16)
        ensures
            r == (match *self {
                AdmissionError::QueueFull => 503u16,
                AdmissionError::StoreFailed => 500u16,
                _ => 400u16,
            }),
    {
        match self {
            AdmissionError::QueueFull => 503,
            AdmissionError::StoreFailed => 500,
            _ => 400,
        }
    }
}

/// Decide whether an upload may be queued, checking in this order: a content type is
/// declared, it is PNG or JPEG, an image format is known for it, the file is not
/// empty, and the queue is not full. On success the image format is returned.
pub fn check_upload(
    media: Option<MediaKind>,
    format: Option<ImageFormat>,
    size: u64,
    queue: &ImageQueue,
) -> (r: Result<ImageFormat, AdmissionError>)
    ensures
        media is None ==> r == Err::<ImageFormat, AdmissionError>(AdmissionError::ContentTypeMissing),
        media == Some(MediaKind::Other) ==> r == Err::<ImageFormat, AdmissionError>(
            AdmissionError::ContentTypeUnsupported,
        ),
        media is Some && media != Some(MediaKind::Other) ==> r == (if format is None {
            Err(AdmissionError::FormatUnknown)
        } else if size < 1 {
            Err(AdmissionError::EmptyFile)
        } else if queue@.len() > crate::image_queue::QUEUE_SIZE {
            Err(AdmissionError::QueueFull)
        } else {
            Ok(format.unwrap())
        }),
{
    let kind = match media {
        Some(kind) => kind,
        None => {
            return Err(AdmissionError::ContentTypeMissing);
        },
    };
    match kind {
        MediaKind::Png => {},
        MediaKind::Jpeg => {},
        MediaKind::Other => {
            return Err(AdmissionError::ContentTypeUnsupported);
        },
    }
    let format = match format {
        Some(format) => format,
        None => {
            return Err(AdmissionError::FormatUnknown);
        },
    };
    if size < 1 {
        return Err(AdmissionError::EmptyFile);
    }
    if queue.is_full() {
        return Err(AdmissionError::QueueFull);
    }
    Ok(format)
}

} // verus!
