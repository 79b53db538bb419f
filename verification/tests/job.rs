use audio_worker::config::ConfigError;
use audio_worker::job::{JobAction, JobError, JobPhase, JobState, Outcome, MAX_NOTIFY_ATTEMPTS};
use audio_worker::pipeline::PipelineError;
use audio_worker::status::JobStatusMessage;

fn run(outcomes: &[Outcome]) -> (JobState, Vec<JobAction>) {
    let (mut state, first) = JobState::receive();
    let mut actions = vec![first];
    for outcome in outcomes {
        let (next, action) = state.step(*outcome);
        state = next;
        actions.push(action);
    }
    (state, actions)
}

fn failed(error: JobError) -> Outcome {
    Outcome::Failed(error)
}

#[test]
fn received_job_is_checked_first() {
    let (state, action) = JobState::receive();
    assert_eq!(state.phase, JobPhase::Received);
    assert!(!state.published);
    assert_eq!(state.failures, 0);
    assert_eq!(state.error, None);
    assert_eq!(action, JobAction::Validate);
    assert!(!state.is_over());
}

#[test]
fn full_success_path() {
    let (state, actions) = run(&[
        Outcome::Succeeded,
        Outcome::Succeeded,
        Outcome::Succeeded,
        Outcome::Succeeded,
        Outcome::Succeeded,
    ]);
    assert_eq!(
        actions,
        vec![
            JobAction::Validate,
            JobAction::Process,
            JobAction::Upload,
            JobAction::Publish,
            JobAction::Acknowledge,
            JobAction::RemoveArtifact,
        ]
    );
    assert_eq!(state.phase, JobPhase::Acknowledged);
    assert!(state.published);
    assert_eq!(state.error, None);
    assert!(state.is_over());
    assert_eq!(state.step(Outcome::Succeeded), (state, JobAction::Stop));
}

#[test]
fn status_message_names_the_job_and_the_link() {
    let (state, _) = run(&[Outcome::Succeeded, Outcome::Succeeded, Outcome::Succeeded]);
    assert_eq!(state.phase, JobPhase::Notifying);
    let message = state
        .status_message("job-42".to_string(), "https://bucket.example/out.wav?sig=abc".to_string());
    match message {
        Some(m) => {
            assert_eq!(m.job_id, "job-42");
            assert_eq!(m.status, "completed");
            assert_eq!(m.output_url, "https://bucket.example/out.wav?sig=abc");
        },
        None => panic!("no status message after the upload"),
    }
}

#[test]
fn completed_message_has_the_status_completed() {
    let m = JobStatusMessage::completed("a".to_string(), "b".to_string());
    assert_eq!(m.job_id, "a");
    assert_eq!(m.status, "completed");
    assert_eq!(m.output_url, "b");
}

#[test]
fn no_status_message_before_the_upload_or_after_publishing() {
    let (received, _) = JobState::receive();
    assert!(received.status_message("j".to_string(), "u".to_string()).is_none());
    let (processing, _) = run(&[Outcome::Succeeded]);
    assert!(processing.status_message("j".to_string(), "u".to_string()).is_none());
    let (uploading, _) = run(&[Outcome::Succeeded, Outcome::Succeeded]);
    assert!(uploading.status_message("j".to_string(), "u".to_string()).is_none());
    let (published, _) =
        run(&[Outcome::Succeeded, Outcome::Succeeded, Outcome::Succeeded, Outcome::Succeeded]);
    assert!(published.published);
    assert!(published.status_message("j".to_string(), "u".to_string()).is_none());
    let (failed_job, _) = run(&[Outcome::Succeeded, failed(JobError::Fetch)]);
    assert!(failed_job.status_message("j".to_string(), "u".to_string()).is_none());
}

#[test]
fn failed_fetch_gives_the_job_back() {
    assert_eq!(Outcome::of_fetch(404), failed(JobError::Fetch));
    let (state, actions) = run(&[Outcome::Succeeded, Outcome::of_fetch(404), Outcome::Succeeded]);
    assert_eq!(
        actions,
        vec![
            JobAction::Validate,
            JobAction::Process,
            JobAction::NegativelyAcknowledge,
            JobAction::Stop,
        ]
    );
    assert!(!actions.contains(&JobAction::Upload));
    assert!(!actions.contains(&JobAction::Publish));
    assert!(!actions.contains(&JobAction::RemoveArtifact));
    assert_eq!(state.phase, JobPhase::NegativelyAcknowledged);
    assert_eq!(state.error, Some(JobError::Fetch));
    assert!(!state.published);
    assert!(state.is_over());
}

#[test]
fn fetch_succeeds_on_the_codes_from_200_to_299() {
    assert_eq!(Outcome::of_fetch(200), Outcome::Succeeded);
    assert_eq!(Outcome::of_fetch(204), Outcome::Succeeded);
    assert_eq!(Outcome::of_fetch(299), Outcome::Succeeded);
    assert_eq!(Outcome::of_fetch(199), failed(JobError::Fetch));
    assert_eq!(Outcome::of_fetch(300), failed(JobError::Fetch));
    assert_eq!(Outcome::of_fetch(301), failed(JobError::Fetch));
    assert_eq!(Outcome::of_fetch(403), failed(JobError::Fetch));
    assert_eq!(Outcome::of_fetch(500), failed(JobError::Fetch));
    assert_eq!(Outcome::of_fetch(0), failed(JobError::Fetch));
    assert_eq!(Outcome::of_fetch(u16::MAX), failed(JobError::Fetch));
}

#[test]
fn outcome_of_a_check_and_of_a_pipeline() {
    assert_eq!(Outcome::of_check(Ok(())), Outcome::Succeeded);
    assert_eq!(
        Outcome::of_check(Err(ConfigError::ZeroBits)),
        failed(JobError::Configuration(ConfigError::ZeroBits))
    );
    assert_eq!(
        Outcome::of_check(Err(ConfigError::ZeroDelay)),
        failed(JobError::Configuration(ConfigError::ZeroDelay))
    );
    assert_eq!(Outcome::of_pipeline(Ok(())), Outcome::Succeeded);
    assert_eq!(Outcome::of_pipeline(Err(PipelineError::Decode)), failed(JobError::Decode));
    assert_eq!(Outcome::of_pipeline(Err(PipelineError::Encode)), failed(JobError::Encode));
}

#[test]
fn invalid_configuration_fails_the_job_before_processing() {
    let (state, actions) =
        run(&[Outcome::of_check(Err(ConfigError::ZeroBits)), Outcome::Succeeded]);
    assert_eq!(
        actions,
        vec![JobAction::Validate, JobAction::NegativelyAcknowledge, JobAction::Stop]
    );
    assert_eq!(state.phase, JobPhase::NegativelyAcknowledged);
    assert_eq!(state.error, Some(JobError::Configuration(ConfigError::ZeroBits)));
}

#[test]
fn decode_and_encode_failures_give_the_job_back() {
    for error in [JobError::Decode, JobError::Encode] {
        let (state, actions) = run(&[Outcome::Succeeded, failed(error)]);
        assert_eq!(state.phase, JobPhase::Failed);
        assert_eq!(state.error, Some(error));
        assert_eq!(actions.last(), Some(&JobAction::NegativelyAcknowledge));
        assert!(!state.is_over());
    }
}

#[test]
fn failed_upload_keeps_the_artifact_and_gives_the_job_back() {
    let (state, actions) = run(&[
        Outcome::Succeeded,
        Outcome::Succeeded,
        failed(JobError::Upload),
        failed(JobError::Notification),
        Outcome::Succeeded,
    ]);
    assert_eq!(
        actions,
        vec![
            JobAction::Validate,
            JobAction::Process,
            JobAction::Upload,
            JobAction::NegativelyAcknowledge,
            JobAction::Stop,
            JobAction::Stop,
        ]
    );
    assert_eq!(state.phase, JobPhase::NegativelyAcknowledged);
    assert_eq!(state.error, Some(JobError::Upload));
}

#[test]
fn upload_failure_is_an_upload_error_whatever_is_reported() {
    let (state, _) = run(&[Outcome::Succeeded, Outcome::Succeeded, failed(JobError::Fetch)]);
    assert_eq!(state.error, Some(JobError::Upload));
}

#[test]
fn publishing_is_tried_again_up_to_the_bound() {
    assert_eq!(MAX_NOTIFY_ATTEMPTS, 3);
    let to_notifying = [Outcome::Succeeded, Outcome::Succeeded, Outcome::Succeeded];
    let mut outcomes = to_notifying.to_vec();
    outcomes.push(failed(JobError::Notification));
    let (state, actions) = run(&outcomes);
    assert_eq!(state.phase, JobPhase::Notifying);
    assert_eq!(state.failures, 1);
    assert_eq!(actions.last(), Some(&JobAction::Publish));

    outcomes.push(failed(JobError::Notification));
    let (state, actions) = run(&outcomes);
    assert_eq!(state.phase, JobPhase::Notifying);
    assert_eq!(state.failures, 2);
    assert_eq!(actions.last(), Some(&JobAction::Publish));

    outcomes.push(failed(JobError::Notification));
    let (state, actions) = run(&outcomes);
    assert_eq!(state.phase, JobPhase::Failed);
    assert_eq!(state.error, Some(JobError::Notification));
    assert_eq!(actions.last(), Some(&JobAction::NegativelyAcknowledge));
    assert_eq!(actions.iter().filter(|a| **a == JobAction::Publish).count(), 3);
}

#[test]
fn publishing_succeeds_on_a_later_try() {
    let (state, actions) = run(&[
        Outcome::Succeeded,
        Outcome::Succeeded,
        Outcome::Succeeded,
        failed(JobError::Notification),
        failed(JobError::Notification),
        Outcome::Succeeded,
        Outcome::Succeeded,
    ]);
    assert_eq!(state.phase, JobPhase::Acknowledged);
    assert_eq!(state.error, None);
    assert_eq!(
        actions,
        vec![
            JobAction::Validate,
            JobAction::Process,
            JobAction::Upload,
            JobAction::Publish,
            JobAction::Publish,
            JobAction::Publish,
            JobAction::Acknowledge,
            JobAction::RemoveArtifact,
        ]
    );
}

#[test]
fn acknowledging_is_tried_again_and_never_publishes_twice() {
    let (state, actions) = run(&[
        Outcome::Succeeded,
        Outcome::Succeeded,
        Outcome::Succeeded,
        failed(JobError::Notification),
        Outcome::Succeeded,
        failed(JobError::Notification),
        failed(JobError::Notification),
        Outcome::Succeeded,
    ]);
    assert_eq!(state.phase, JobPhase::Acknowledged);
    assert_eq!(
        actions,
        vec![
            JobAction::Validate,
            JobAction::Process,
            JobAction::Upload,
            JobAction::Publish,
            JobAction::Publish,
            JobAction::Acknowledge,
            JobAction::Acknowledge,
            JobAction::Acknowledge,
            JobAction::RemoveArtifact,
        ]
    );
}

#[test]
fn acknowledgment_that_keeps_failing_gives_the_job_back() {
    let (state, actions) = run(&[
        Outcome::Succeeded,
        Outcome::Succeeded,
        Outcome::Succeeded,
        Outcome::Succeeded,
        failed(JobError::Notification),
        failed(JobError::Notification),
        failed(JobError::Notification),
        Outcome::Succeeded,
    ]);
    assert_eq!(state.phase, JobPhase::NegativelyAcknowledged);
    assert_eq!(state.error, Some(JobError::Notification));
    assert!(state.published);
    assert!(!actions.contains(&JobAction::RemoveArtifact));
    assert_eq!(actions.iter().filter(|a| **a == JobAction::Publish).count(), 1);
    assert_eq!(actions.iter().filter(|a| **a == JobAction::Acknowledge).count(), 3);
    assert_eq!(actions[actions.len() - 2], JobAction::NegativelyAcknowledge);
    assert_eq!(actions[actions.len() - 1], JobAction::Stop);
}

#[test]
fn a_job_that_is_over_stays_as_it_is() {
    let (done, _) = run(&[Outcome::Succeeded; 5]);
    let (given_back, _) = run(&[Outcome::Succeeded, failed(JobError::Decode), Outcome::Succeeded]);
    for state in [done, given_back] {
        assert!(state.is_over());
        for outcome in [Outcome::Succeeded, failed(JobError::Fetch), failed(JobError::Upload)] {
            assert_eq!(state.step(outcome), (state, JobAction::Stop));
        }
    }
}

#[test]
fn the_artifact_is_removed_only_after_the_acknowledgment() {
    let outcomes = [Outcome::Succeeded, failed(JobError::Fetch), failed(JobError::Notification)];
    // Every run of six steps from the start.
    let mut index = [0usize; 6];
    loop {
        let (mut state, _) = JobState::receive();
        let mut published = 0;
        for i in index {
            let before = state;
            let (next, action) = state.step(outcomes[i]);
            if action == JobAction::RemoveArtifact {
                assert_eq!(before.phase, JobPhase::Notifying);
                assert!(before.published);
                assert_eq!(outcomes[i], Outcome::Succeeded);
                assert_eq!(next.phase, JobPhase::Acknowledged);
            }
            if action == JobAction::Upload {
                assert_eq!(before.phase, JobPhase::Processing);
                assert_eq!(outcomes[i], Outcome::Succeeded);
            }
            if !before.published && next.published {
                published += 1;
            }
            if before.error.is_some() {
                assert_eq!(action, JobAction::Stop);
                assert_eq!(next.error, before.error);
            }
            state = next;
        }
        assert!(published <= 1);
        let mut k = 0;
        while k < index.len() {
            index[k] += 1;
            if index[k] < outcomes.len() {
                break;
            }
            index[k] = 0;
            k += 1;
        }
        if k == index.len() {
            break;
        }
    }
}
