use vstd::prelude::*;

use std::path::PathBuf;
use std::time::SystemTime;

use image::ImageFormat;
use uuid::Uuid;

verus! {

/// Number of queued jobs above which the queue reports itself full. The limit is
/// advisory: `push` always admits, and producers consult `is_full` first.
pub const QUEUE_SIZE: usize = 10000;

/// One staged image waiting for detection.
pub struct QueueItem {
    pub id: Uuid,
    pub image_location: PathBuf,
    pub format: ImageFormat,
    pub added_time: SystemTime,
}

/// A FIFO of pending jobs. Its view is the sequence of queued items, oldest first.
///
/// The queue itself is single-owner; sharing it between producers and the one
/// consumer takes a lock around it, so that each operation is one critical section.
pub struct ImageQueue {
    queue: Vec<QueueItem>,
}

impl View for ImageQueue {
    type V = Seq<QueueItem>;

    closed spec fn view(&self) -> Seq<QueueItem> {
        self.queue@
    }
}

impl ImageQueue {
    /// An empty queue.
    pub fn new() -> (r: ImageQueue)
        ensures
            r@ == Seq::<QueueItem>::empty(),
    {
        ImageQueue { queue: Vec::with_capacity(QUEUE_SIZE) }
    }

    /// Remove and return every queued job, oldest first; the queue is left empty.
    pub fn drain(&mut self) -> (r: Vec<QueueItem>)
        ensures
            r@ == old(self)@,
            final(self)@ == Seq::<QueueItem>::empty(),
    {
        let mut queue_items: Vec<QueueItem> = Vec::new();
        std::mem::swap(&mut queue_items, &mut self.queue);
        queue_items
    }

    /// Whether more than `QUEUE_SIZE` jobs are waiting.
    pub fn is_full(&self) -> (r: bool)
        ensures
            r == (self@.len() > QUEUE_SIZE),
    {
        self.queue.len() > QUEUE_SIZE
    }

    /// Append a job for the staged image at `image_location` under a fresh id, and
    /// return that id. Always admits, whatever the queue's length.
    pub fn push(&mut self, image_location: PathBuf, format: ImageFormat) -> (id: Uuid)
        ensures
            final(self)@.len() == old(self)@.len() + 1,
            final(self)@.drop_last() == old(self)@,
            final(self)@.last().id == id,
            final(self)@.last().image_location == image_location,
            final(self)@.last().format == format,
    {
        let id = Uuid::new_v4();
        self.queue.push(QueueItem { id, image_location, format, added_time: SystemTime::now() });
        proof {
            assert(self.queue@.drop_last() =~= old(self).queue@);
        }
        id
    }
}

/// The queue after `items` are appended one by one to `start`.
pub open spec fn after_pushes(start: Seq<QueueItem>, items: Seq<QueueItem>) -> Seq<QueueItem>
    decreases items.len(),
{
    if items.len() == 0 {
        start
    } else {
        after_pushes(start, items.drop_last()).push(items.last())
    }
}

/// Pushing a sequence of jobs, each appended at the back, and then draining returns
/// what was queued before followed by the pushed jobs in push order.
pub proof fn lemma_drain_keeps_push_order(start: Seq<QueueItem>, items: Seq<QueueItem>)
    ensures
        after_pushes(start, items) == start + items,
    decreases items.len(),
{
    if items.len() > 0 {
        lemma_drain_keeps_push_order(start, items.drop_last());
        assert(start + items =~= (start + items.drop_last()).push(items.last()));
    } else {
        assert(start + items =~= start);
    }
}

} // verus!
