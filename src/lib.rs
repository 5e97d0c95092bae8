//! Detection pipeline of an image-upload service: a FIFO job queue, the decisions of the
//! worker that drains it, and the postprocessing that turns raw detector output into
//! pixel boxes (confidence filter, non-maximum suppression, coordinate remapping).

pub mod admission;
pub mod config;
pub mod foreign;
pub mod geometry;
pub mod image_queue;
pub mod nms;
pub mod postprocess;
pub mod remap;
pub mod scheduler;
