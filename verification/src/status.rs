//! The message that reports a finished job.

use vstd::prelude::*;

verus! {

/// The record published when a job is done: which job, that it is completed, and where
/// the result can be fetched.
#[derive(Debug)]
pub struct JobStatusMessage {
    pub job_id: String,
    pub status: String,
    pub output_url: String,
}

/// A status message as contracts see it.
pub struct JobStatusView {
    pub job_id: Seq<char>,
    pub status: Seq<char>,
    pub output_url: Seq<char>,
}

impl View for JobStatusMessage {
    type V = JobStatusView;

    open spec fn view(&self) -> JobStatusView {
        JobStatusView {
            job_id: self.job_id@,
            status: self.status@,
            output_url: self.output_url@,
        }
    }
}

/// The status of a job that is done.
pub open spec fn completed_status() -> Seq<char> {
    "completed"@
}

impl JobStatusMessage {
    /// The message for the completed job `job_id`, whose result is at `output_url`.
    pub fn completed(job_id: String, output_url: String) -> (message: Self)
        ensures
            message@ == (JobStatusView {
                job_id: job_id@,
                status: completed_status(),
                output_url: output_url@,
            }),
    {
        JobStatusMessage { job_id, status: "completed".to_owned(), output_url }
    }
}

} // verus!
