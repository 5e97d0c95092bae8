use vstd::prelude::*;

verus! {

/// Interval between two drains of the queue, in milliseconds.
pub const POLL_INTERVAL_MS: u64 = 10;

/// The stages that one drained job goes through, in this order.
#[derive(Clone, Copy, Debug, PartialEq, Eq, Structural)]
pub enum JobStage {
    /// Open the staged image.
    Open,
    /// Decode it in its declared format.
    Decode,
    /// Run the detector and its postprocessing.
    Inference,
    /// Create the result file named by the job id.
    CreateResult,
    /// Write the detections into it.
    WriteResult,
    /// Flush the result to storage.
    FlushResult,
    /// Remove the staged image.
    RemoveStaged,
}

/// How a stage ended.
#[derive(Clone, Copy, Debug, PartialEq, Eq, Structural)]
pub enum StageOutcome {
    Succeeded,
    Failed,
}

/// What the worker does next for the job.
#[derive(Clone, Copy, Debug, PartialEq, Eq, Structural)]
pub enum JobAction {
    /// Carry out this stage.
    Run(JobStage),
    /// The job is over; go on with the next drained job.
    Finished,
    /// The staged image could not be removed: stop the process.
    Fatal,
}

/// The stage that follows `stage` when it succeeds, if any.
pub open spec fn following(stage: JobStage) -> Option<JobStage> {
    match stage {
        JobStage::Open => Some(JobStage::Decode),
        JobStage::Decode => Some(JobStage::Inference),
        JobStage::Inference => Some(JobStage::CreateResult),
        JobStage::CreateResult => Some(JobStage::WriteResult),
        JobStage::WriteResult => Some(JobStage::FlushResult),
        JobStage::FlushResult => Some(JobStage::RemoveStaged),
        JobStage::RemoveStaged => None,
    }
}

/// Decide what follows a stage of a job.
///
/// A success moves on to the next stage. A failure of any stage before the removal of
/// the staged image abandons the job (it is never retried) and goes straight to that
/// removal, so one failing job never holds up the next. Once the staged image is
/// removed the job is finished; if it cannot be removed the process must stop.
pub fn next_action(stage: JobStage, outcome: StageOutcome) -> (r: JobAction)
    ensures
        stage == JobStage::RemoveStaged ==> r == (if outcome == StageOutcome::Succeeded {
            JobAction::Finished
        } else {
            JobAction::Fatal
        }),
        stage != JobStage::RemoveStaged && outcome == StageOutcome::Succeeded ==> r
            == JobAction::Run(following(stage).unwrap()),
        stage != JobStage::RemoveStaged && outcome == StageOutcome::Failed ==> r == JobAction::Run(
            JobStage::RemoveStaged,
        ),
{
    match outcome {
        StageOutcome::Failed => match stage {
            JobStage::RemoveStaged => JobAction::Fatal,
            _ => JobAction::Run(JobStage::RemoveStaged),
        },
        StageOutcome::Succeeded => match stage {
            JobStage::Open => JobAction::Run(JobStage::Decode),
            JobStage::Decode => JobAction::Run(JobStage::Inference),
            JobStage::Inference => JobAction::Run(JobStage::CreateResult),
            JobStage::CreateResult => JobAction::Run(JobStage::WriteResult),
            JobStage::WriteResult => JobAction::Run(JobStage::FlushResult),
            JobStage::FlushResult => JobAction::Run(JobStage::RemoveStaged),
            JobStage::RemoveStaged => JobAction::Finished,
        },
    }
}

} // verus!
