//! The lifecycle of one job: received, processed, uploaded, announced and acknowledged, or
//! given back to the queue when a step fails.
//!
//! The coordinator that drives a job does the outside work: it runs the pipeline, uploads,
//! publishes and talks to the queue. What to do next is decided here, from the state of the
//! job and the outcome of the step just done.
//!
//! A failure of any step before the upload is over ends the job: it is negatively
//! acknowledged and the queue may deliver it again. Publishing the status message and
//! acknowledging the job are tried up to `MAX_NOTIFY_ATTEMPTS` times each; when the last
//! try fails the job is negatively acknowledged like any other failed job. No failure of a
//! job stops the coordinator.

use vstd::prelude::*;
use crate::config::ConfigError;
use crate::pipeline::PipelineError;
use crate::status::{completed_status, JobStatusMessage, JobStatusView};

verus! {

/// How often publishing the status message is tried, and how often acknowledging.
pub const MAX_NOTIFY_ATTEMPTS: u8 = 3;

/// Why a job failed.
#[derive(Clone, Copy, Debug, PartialEq, Eq, Structural)]
pub enum JobError {
    /// The job's effects are not valid.
    Configuration(ConfigError),
    /// The source could not be fetched, or the answer was no success.
    Fetch,
    /// The source could not be decoded.
    Decode,
    /// The output could not be written or finalized.
    Encode,
    /// The output could not be uploaded.
    Upload,
    /// The status message could not be published, or the job could not be acknowledged.
    Notification,
}

/// Where a job stands.
#[derive(Clone, Copy, Debug, PartialEq, Eq, Structural)]
pub enum JobPhase {
    Received,
    Processing,
    Uploading,
    Notifying,
    Acknowledged,
    Failed,
    NegativelyAcknowledged,
}

/// How the step that the coordinator was asked to do ended.
#[derive(Clone, Copy, Debug, PartialEq, Eq, Structural)]
pub enum Outcome {
    Succeeded,
    Failed(JobError),
}

/// What the coordinator is to do next.
#[derive(Clone, Copy, Debug, PartialEq, Eq, Structural)]
pub enum JobAction {
    /// Check the job's configuration.
    Validate,
    /// Fetch the source and run the pipeline.
    Process,
    /// Upload the output and get the link under which it can be fetched.
    Upload,
    /// Publish the status message.
    Publish,
    /// Acknowledge the job.
    Acknowledge,
    /// Remove the local output: the job is acknowledged.
    RemoveArtifact,
    /// Negatively acknowledge the job. The local output, if any, stays where it is.
    NegativelyAcknowledge,
    /// Nothing: the job is over.
    Stop,
}

/// The state of one job.
#[derive(Clone, Copy, Debug, PartialEq, Eq, Structural)]
pub struct JobState {
    pub phase: JobPhase,
    /// The status message is out.
    pub published: bool,
    /// How often the current step of `Notifying` has failed.
    pub failures: u8,
    /// Why the job failed, once it has.
    pub error: Option<JobError>,
}

/// Whether an HTTP status code reports success: the codes from 200 to 299.
pub open spec fn is_success_status(status: u16) -> bool {
    200 <= status < 300
}

/// The state of a job that has just been received.
pub open spec fn received_state() -> JobState {
    JobState { phase: JobPhase::Received, published: false, failures: 0, error: None }
}

/// The state of a failed job.
pub open spec fn failed_state(state: JobState, error: JobError) -> JobState {
    JobState { phase: JobPhase::Failed, error: Some(error), ..state }
}

/// The state after one more failed try of the current step of `Notifying`.
pub open spec fn retried_state(state: JobState) -> JobState {
    if state.failures + 1 >= MAX_NOTIFY_ATTEMPTS {
        failed_state(state, JobError::Notification)
    } else {
        JobState { failures: (state.failures + 1) as u8, ..state }
    }
}

/// The state that follows `state` when the step asked for ended with `outcome`.
pub open spec fn next_state(state: JobState, outcome: Outcome) -> JobState {
    match (state.phase, outcome) {
        (JobPhase::Received, Outcome::Succeeded) => JobState {
            phase: JobPhase::Processing,
            ..state
        },
        (JobPhase::Received, Outcome::Failed(error)) => failed_state(state, error),
        (JobPhase::Processing, Outcome::Succeeded) => JobState {
            phase: JobPhase::Uploading,
            ..state
        },
        (JobPhase::Processing, Outcome::Failed(error)) => failed_state(state, error),
        (JobPhase::Uploading, Outcome::Succeeded) => JobState {
            phase: JobPhase::Notifying,
            published: false,
            failures: 0,
            ..state
        },
        (JobPhase::Uploading, Outcome::Failed(_)) => failed_state(state, JobError::Upload),
        (JobPhase::Notifying, Outcome::Succeeded) => if state.published {
            JobState { phase: JobPhase::Acknowledged, ..state }
        } else {
            JobState { published: true, failures: 0, ..state }
        },
        (JobPhase::Notifying, Outcome::Failed(_)) => retried_state(state),
        (JobPhase::Failed, _) => JobState { phase: JobPhase::NegativelyAcknowledged, ..state },
        (JobPhase::Acknowledged, _) => state,
        (JobPhase::NegativelyAcknowledged, _) => state,
    }
}

/// What the coordinator is asked to do when the job goes from `state` to `next`.
pub open spec fn action_between(state: JobState, next: JobState) -> JobAction {
    match next.phase {
        JobPhase::Received => JobAction::Validate,
        JobPhase::Processing => JobAction::Process,
        JobPhase::Uploading => JobAction::Upload,
        JobPhase::Notifying => if next.published {
            JobAction::Acknowledge
        } else {
            JobAction::Publish
        },
        JobPhase::Acknowledged => if state.phase == JobPhase::Notifying {
            JobAction::RemoveArtifact
        } else {
            JobAction::Stop
        },
        JobPhase::Failed => JobAction::NegativelyAcknowledge,
        JobPhase::NegativelyAcknowledged => JobAction::Stop,
    }
}

/// What the coordinator is asked to do when the step asked for in `state` ended with
/// `outcome`.
pub open spec fn next_action(state: JobState, outcome: Outcome) -> JobAction {
    action_between(state, next_state(state, outcome))
}

impl Outcome {
    /// The outcome of checking a job's configuration.
    pub fn of_check(checked: Result<(), ConfigError>) -> (outcome: Outcome)
        ensures
            outcome == match checked {
                Ok(_) => Outcome::Succeeded,
                Err(e) => Outcome::Failed(JobError::Configuration(e)),
            },
    {
        match checked {
            Ok(_) => Outcome::Succeeded,
            Err(e) => Outcome::Failed(JobError::Configuration(e)),
        }
    }

    /// The outcome of fetching the source, from the status code of the answer.
    pub fn of_fetch(status: u16) -> (outcome: Outcome)
        ensures
            outcome == if is_success_status(status) {
                Outcome::Succeeded
            } else {
                Outcome::Failed(JobError::Fetch)
            },
    {
        if 200 <= status && status < 300 {
            Outcome::Succeeded
        } else {
            Outcome::Failed(JobError::Fetch)
        }
    }

    /// The outcome of a pipeline that is over.
    pub fn of_pipeline(ended: Result<(), PipelineError>) -> (outcome: Outcome)
        ensures
            outcome == match ended {
                Ok(_) => Outcome::Succeeded,
                Err(PipelineError::Decode) => Outcome::Failed(JobError::Decode),
                Err(PipelineError::Encode) => Outcome::Failed(JobError::Encode),
            },
    {
        match ended {
            Ok(_) => Outcome::Succeeded,
            Err(PipelineError::Decode) => Outcome::Failed(JobError::Decode),
            Err(PipelineError::Encode) => Outcome::Failed(JobError::Encode),
        }
    }
}

impl JobState {
    /// A job that has just been received. Its configuration is checked first.
    pub fn receive() -> (r: (JobState, JobAction))
        ensures
            r.0 == received_state(),
            r.1 == JobAction::Validate,
    {
        (
            JobState { phase: JobPhase::Received, published: false, failures: 0, error: None },
            JobAction::Validate,
        )
    }

    /// Takes in how the step asked for ended, and says what the coordinator is to do next.
    pub fn step(self, outcome: Outcome) -> (r: (JobState, JobAction))
        ensures
            r.0 == next_state(self, outcome),
            r.1 == next_action(self, outcome),
    {
        let next = match self.phase {
            JobPhase::Received => match outcome {
                Outcome::Succeeded => JobState { phase: JobPhase::Processing, ..self },
                Outcome::Failed(error) => self.failed(error),
            },
            JobPhase::Processing => match outcome {
                Outcome::Succeeded => JobState { phase: JobPhase::Uploading, ..self },
                Outcome::Failed(error) => self.failed(error),
            },
            JobPhase::Uploading => match outcome {
                Outcome::Succeeded => JobState {
                    phase: JobPhase::Notifying,
                    published: false,
                    failures: 0,
                    ..self
                },
                Outcome::Failed(_) => self.failed(JobError::Upload),
            },
            JobPhase::Notifying => match outcome {
                Outcome::Succeeded => if self.published {
                    JobState { phase: JobPhase::Acknowledged, ..self }
                } else {
                    JobState { published: true, failures: 0, ..self }
                },
                Outcome::Failed(_) => if self.failures >= MAX_NOTIFY_ATTEMPTS - 1 {
                    self.failed(JobError::Notification)
                } else {
                    JobState { failures: self.failures + 1, ..self }
                },
            },
            JobPhase::Failed => JobState { phase: JobPhase::NegativelyAcknowledged, ..self },
            JobPhase::Acknowledged => self,
            JobPhase::NegativelyAcknowledged => self,
        };
        let action = match next.phase {
            JobPhase::Received => JobAction::Validate,
            JobPhase::Processing => JobAction::Process,
            JobPhase::Uploading => JobAction::Upload,
            JobPhase::Notifying => if next.published {
                JobAction::Acknowledge
            } else {
                JobAction::Publish
            },
            JobPhase::Acknowledged => match self.phase {
                JobPhase::Notifying => JobAction::RemoveArtifact,
                _ => JobAction::Stop,
            },
            JobPhase::Failed => JobAction::NegativelyAcknowledge,
            JobPhase::NegativelyAcknowledged => JobAction::Stop,
        };
        (next, action)
    }

    fn failed(self, error: JobError) -> (next: JobState)
        ensures
            next == failed_state(self, error),
    {
        JobState { phase: JobPhase::Failed, error: Some(error), ..self }
    }

    /// The job is over: it is acknowledged or negatively acknowledged.
    pub fn is_over(&self) -> (over: bool)
        ensures
            over == (self.phase == JobPhase::Acknowledged || self.phase
                == JobPhase::NegativelyAcknowledged),
    {
        match self.phase {
            JobPhase::Acknowledged => true,
            JobPhase::NegativelyAcknowledged => true,
            _ => false,
        }
    }

    /// The status message of the job, while it is due: after the upload and before the
    /// message is out. At any other time there is none.
    pub fn status_message(&self, job_id: String, output_url: String) -> (message: Option<
        JobStatusMessage,
    >)
        ensures
            match message {
                Some(m) => self.phase == JobPhase::Notifying && !self.published && m@ == (
                JobStatusView {
                    job_id: job_id@,
                    status: completed_status(),
                    output_url: output_url@,
                }),
                None => !(self.phase == JobPhase::Notifying && !self.published),
            },
    {
        match self.phase {
            JobPhase::Notifying => if self.published {
                None
            } else {
                Some(JobStatusMessage::completed(job_id, output_url))
            },
            _ => None,
        }
    }
}

impl JobState {
    /// A state that a job can be in: the message is out only once the upload is over, the
    /// failures of a step stay under the bound, and a job has an error exactly when it
    /// has failed.
    pub open spec fn wf(self) -> bool {
        &&& self.failures < MAX_NOTIFY_ATTEMPTS
        &&& self.published ==> self.phase != JobPhase::Received && self.phase
            != JobPhase::Processing && self.phase != JobPhase::Uploading
        &&& self.error is Some <==> self.phase == JobPhase::Failed || self.phase
            == JobPhase::NegativelyAcknowledged
    }
}

/// The state reached from `state` after steps that ended with `outcomes`, in order.
pub open spec fn state_after(state: JobState, outcomes: Seq<Outcome>) -> JobState
    decreases outcomes.len(),
{
    if outcomes.len() == 0 {
        state
    } else {
        next_state(state_after(state, outcomes.drop_last()), outcomes.last())
    }
}

/// What the coordinator is asked to do after step `k` of the run that starts in `state`
/// and whose steps end with `outcomes`.
pub open spec fn action_after(state: JobState, outcomes: Seq<Outcome>, k: int) -> JobAction {
    next_action(state_after(state, outcomes.take(k)), outcomes[k])
}

/// Every state that a received job reaches is one that a job can be in.
pub proof fn lemma_states_are_wf(state: JobState, outcomes: Seq<Outcome>)
    requires
        state.wf(),
    ensures
        received_state().wf(),
        state_after(state, outcomes).wf(),
    decreases outcomes.len(),
{
    if outcomes.len() > 0 {
        lemma_states_are_wf(state, outcomes.drop_last());
    }
}

/// A step that fails before the upload is over ends the job: the coordinator is asked to
/// negatively acknowledge it, and after that for nothing more. No upload is asked for, no
/// status message, no acknowledgment and no removal of the output, whatever is reported
/// later; the error stays the one that was recorded.
pub proof fn lemma_failure_gives_job_back(
    state: JobState,
    cause: JobError,
    later: Seq<Outcome>,
    k: int,
)
    requires
        state.phase == JobPhase::Received || state.phase == JobPhase::Processing || state.phase
            == JobPhase::Uploading,
        0 <= k < later.len(),
    ensures
        next_action(state, Outcome::Failed(cause)) == JobAction::NegativelyAcknowledge,
        next_state(state, Outcome::Failed(cause)).phase == JobPhase::Failed,
        next_state(state, Outcome::Failed(cause)).error == Some(
            if state.phase == JobPhase::Uploading {
                JobError::Upload
            } else {
                cause
            },
        ),
        action_after(next_state(state, Outcome::Failed(cause)), later, k) == JobAction::Stop,
        state_after(next_state(state, Outcome::Failed(cause)), later).phase
            == JobPhase::NegativelyAcknowledged,
        state_after(next_state(state, Outcome::Failed(cause)), later).error == next_state(
            state,
            Outcome::Failed(cause),
        ).error,
{
    let failed = next_state(state, Outcome::Failed(cause));
    lemma_failed_stays_failed(failed, later.take(k));
    lemma_failed_stays_failed(failed, later);
}

/// A failed job stays failed.
proof fn lemma_failed_stays_failed(state: JobState, outcomes: Seq<Outcome>)
    requires
        state.phase == JobPhase::Failed || state.phase == JobPhase::NegativelyAcknowledged,
    ensures
        state_after(state, outcomes).error == state.error,
        state_after(state, outcomes).phase == if outcomes.len() == 0 {
            state.phase
        } else {
            JobPhase::NegativelyAcknowledged
        },
    decreases outcomes.len(),
{
    if outcomes.len() > 0 {
        lemma_failed_stays_failed(state, outcomes.drop_last());
    }
}

/// The status message goes out once: once it is out, the coordinator is never asked to
/// publish again, whatever is reported later.
pub proof fn lemma_published_once(state: JobState, later: Seq<Outcome>, k: int)
    requires
        state.wf(),
        state.published,
        0 <= k < later.len(),
    ensures
        action_after(state, later, k) != JobAction::Publish,
        state_after(state, later).published,
{
    lemma_stays_published(state, later.take(k));
    lemma_stays_published(state, later);
}

/// Once the status message is out it stays out, and the job does not go back before the
/// upload.
proof fn lemma_stays_published(state: JobState, outcomes: Seq<Outcome>)
    requires
        state.wf(),
        state.published,
    ensures
        state_after(state, outcomes).wf(),
        state_after(state, outcomes).published,
    decreases outcomes.len(),
{
    if outcomes.len() > 0 {
        lemma_stays_published(state, outcomes.drop_last());
    }
}

/// The side effects of a job come in order. An upload is asked for only when processing
/// succeeded; the status message only when the upload succeeded, or again when publishing
/// failed; the acknowledgment only when the message is out; the removal of the local
/// output only when the acknowledgment succeeded; and a negative acknowledgment only
/// when a step failed.
pub proof fn lemma_side_effects_in_order(state: JobState, outcome: Outcome)
    ensures
        next_action(state, outcome) == JobAction::Upload <==> state.phase == JobPhase::Processing
            && outcome == Outcome::Succeeded,
        next_action(state, outcome) == JobAction::Publish ==> (state.phase == JobPhase::Uploading
            && outcome == Outcome::Succeeded) || (state.phase == JobPhase::Notifying
            && !state.published && outcome is Failed),
        next_action(state, outcome) == JobAction::Acknowledge ==> state.phase
            == JobPhase::Notifying && (state.published || outcome == Outcome::Succeeded),
        next_action(state, outcome) == JobAction::RemoveArtifact <==> state.phase
            == JobPhase::Notifying && state.published && outcome == Outcome::Succeeded,
        next_action(state, outcome) == JobAction::NegativelyAcknowledge ==> outcome is Failed,
        next_state(state, outcome).phase == JobPhase::Acknowledged && state.phase
            != JobPhase::Acknowledged ==> next_action(state, outcome)
            == JobAction::RemoveArtifact,
{
}

/// Retrying is bounded: `MAX_NOTIFY_ATTEMPTS` failures in a row of one step of
/// `Notifying` fail the job, with the error `Notification`.
pub proof fn lemma_retries_are_bounded(state: JobState, outcomes: Seq<Outcome>)
    requires
        state.wf(),
        state.phase == JobPhase::Notifying,
        outcomes.len() >= MAX_NOTIFY_ATTEMPTS,
        forall|k: int| 0 <= k < outcomes.len() ==> outcomes[k] is Failed,
    ensures
        state_after(state, outcomes).error == Some(JobError::Notification),
        state_after(state, outcomes).phase == JobPhase::Failed || state_after(
            state,
            outcomes,
        ).phase == JobPhase::NegativelyAcknowledged,
{
    lemma_failures_in_a_row(state, outcomes);
}

/// What failures in a row of one step of `Notifying` lead to: the step is tried again
/// while the bound is not reached, and the job has failed once it is.
proof fn lemma_failures_in_a_row(state: JobState, outcomes: Seq<Outcome>)
    requires
        state.wf(),
        state.phase == JobPhase::Notifying,
        forall|k: int| 0 <= k < outcomes.len() ==> outcomes[k] is Failed,
    ensures
        state.failures + outcomes.len() < MAX_NOTIFY_ATTEMPTS ==> state_after(state, outcomes)
            == (JobState { failures: (state.failures + outcomes.len()) as u8, ..state }),
        state.failures + outcomes.len() >= MAX_NOTIFY_ATTEMPTS ==> {
            &&& state_after(state, outcomes).error == Some(JobError::Notification)
            &&& state_after(state, outcomes).phase == JobPhase::Failed || state_after(
                state,
                outcomes,
            ).phase == JobPhase::NegativelyAcknowledged
        },
    decreases outcomes.len(),
{
    if outcomes.len() > 0 {
        lemma_failures_in_a_row(state, outcomes.drop_last());
    }
}

} // verus!
