use audio_worker::pipeline::{PipelineError, PipelinePhase, StreamAction, StreamEvent};

fn run(events: &[StreamEvent]) -> (PipelinePhase, Vec<StreamAction>) {
    let mut phase = PipelinePhase::start();
    let mut actions = vec![phase.action()];
    for event in events {
        let (next, action) = phase.step(*event);
        phase = next;
        actions.push(action);
    }
    (phase, actions)
}

const ALL_EVENTS: [StreamEvent; 10] = [
    StreamEvent::Block,
    StreamEvent::OtherTrack,
    StreamEvent::TransientError,
    StreamEvent::ResetRequired,
    StreamEvent::EndOfStream,
    StreamEvent::FatalError,
    StreamEvent::Written,
    StreamEvent::WriteFailed,
    StreamEvent::Finalized,
    StreamEvent::FinalizeFailed,
];

#[test]
fn pipeline_starts_by_reading() {
    assert_eq!(PipelinePhase::start(), PipelinePhase::Reading);
    assert_eq!(PipelinePhase::start().action(), StreamAction::ReadNext);
    assert_eq!(PipelinePhase::start().outcome(), None);
}

#[test]
fn every_block_goes_through_the_chain_and_to_the_encoder() {
    let (phase, actions) = run(&[
        StreamEvent::Block,
        StreamEvent::Written,
        StreamEvent::Block,
        StreamEvent::Written,
        StreamEvent::EndOfStream,
        StreamEvent::Finalized,
    ]);
    assert_eq!(phase, PipelinePhase::Complete);
    assert_eq!(
        actions,
        vec![
            StreamAction::ReadNext,
            StreamAction::TransformAndWrite,
            StreamAction::ReadNext,
            StreamAction::TransformAndWrite,
            StreamAction::ReadNext,
            StreamAction::Finalize,
            StreamAction::Stop,
        ]
    );
    assert_eq!(phase.outcome(), Some(Ok(())));
}

#[test]
fn transient_errors_and_other_tracks_are_skipped() {
    let (phase, actions) = run(&[
        StreamEvent::TransientError,
        StreamEvent::OtherTrack,
        StreamEvent::Block,
        StreamEvent::Written,
        StreamEvent::TransientError,
    ]);
    assert_eq!(phase, PipelinePhase::Reading);
    assert_eq!(
        actions,
        vec![
            StreamAction::ReadNext,
            StreamAction::ReadNext,
            StreamAction::ReadNext,
            StreamAction::TransformAndWrite,
            StreamAction::ReadNext,
            StreamAction::ReadNext,
        ]
    );
}

#[test]
fn reset_required_ends_the_stream_like_its_end() {
    let (phase, actions) = run(&[StreamEvent::Block, StreamEvent::Written, StreamEvent::ResetRequired]);
    assert_eq!(phase, PipelinePhase::Finalizing);
    assert_eq!(actions.last(), Some(&StreamAction::Finalize));
    let (phase, _) = phase.step(StreamEvent::Finalized);
    assert_eq!(phase, PipelinePhase::Complete);
    assert_eq!(phase.outcome(), Some(Ok(())));
}

#[test]
fn fatal_decode_error_aborts_without_finalizing() {
    let (phase, actions) = run(&[StreamEvent::Block, StreamEvent::Written, StreamEvent::FatalError]);
    assert_eq!(phase, PipelinePhase::Failed(PipelineError::Decode));
    assert_eq!(phase.outcome(), Some(Err(PipelineError::Decode)));
    assert!(!actions.contains(&StreamAction::Finalize));
    assert_eq!(actions.last(), Some(&StreamAction::Stop));
}

#[test]
fn write_failure_aborts_without_finalizing() {
    let (phase, actions) = run(&[StreamEvent::Block, StreamEvent::WriteFailed]);
    assert_eq!(phase, PipelinePhase::Failed(PipelineError::Encode));
    assert_eq!(phase.outcome(), Some(Err(PipelineError::Encode)));
    assert!(!actions.contains(&StreamAction::Finalize));
}

#[test]
fn finalize_failure_fails_the_pipeline() {
    let (phase, actions) = run(&[StreamEvent::EndOfStream, StreamEvent::FinalizeFailed]);
    assert_eq!(phase, PipelinePhase::Failed(PipelineError::Encode));
    assert_eq!(actions, vec![StreamAction::ReadNext, StreamAction::Finalize, StreamAction::Stop]);
}

#[test]
fn empty_stream_is_finalized() {
    let (phase, actions) = run(&[StreamEvent::EndOfStream, StreamEvent::Finalized]);
    assert_eq!(phase, PipelinePhase::Complete);
    assert_eq!(actions, vec![StreamAction::ReadNext, StreamAction::Finalize, StreamAction::Stop]);
}

#[test]
fn a_pipeline_that_is_over_stays_as_it_is() {
    for over in [
        PipelinePhase::Complete,
        PipelinePhase::Failed(PipelineError::Decode),
        PipelinePhase::Failed(PipelineError::Encode),
    ] {
        for event in ALL_EVENTS {
            assert_eq!(over.step(event), (over, StreamAction::Stop));
        }
    }
}

#[test]
fn events_of_another_phase_change_nothing() {
    for event in [
        StreamEvent::Written,
        StreamEvent::WriteFailed,
        StreamEvent::Finalized,
        StreamEvent::FinalizeFailed,
    ] {
        assert_eq!(
            PipelinePhase::Reading.step(event),
            (PipelinePhase::Reading, StreamAction::ReadNext)
        );
    }
    for event in [
        StreamEvent::Block,
        StreamEvent::OtherTrack,
        StreamEvent::TransientError,
        StreamEvent::ResetRequired,
        StreamEvent::EndOfStream,
        StreamEvent::FatalError,
        StreamEvent::Finalized,
        StreamEvent::FinalizeFailed,
    ] {
        assert_eq!(
            PipelinePhase::Writing.step(event),
            (PipelinePhase::Writing, StreamAction::TransformAndWrite)
        );
    }
    for event in [
        StreamEvent::Block,
        StreamEvent::OtherTrack,
        StreamEvent::TransientError,
        StreamEvent::ResetRequired,
        StreamEvent::EndOfStream,
        StreamEvent::FatalError,
        StreamEvent::Written,
        StreamEvent::WriteFailed,
    ] {
        assert_eq!(
            PipelinePhase::Finalizing.step(event),
            (PipelinePhase::Finalizing, StreamAction::Finalize)
        );
    }
}

#[test]
fn finalizing_is_entered_at_most_once_on_any_run() {
    // Every run of four events from the start.
    for a in ALL_EVENTS {
        for b in ALL_EVENTS {
            for c in ALL_EVENTS {
                for d in ALL_EVENTS {
                    let mut phase = PipelinePhase::start();
                    let mut entered = 0;
                    let mut over = false;
                    for event in [a, b, c, d] {
                        let (next, action) = phase.step(event);
                        if next == PipelinePhase::Finalizing && phase != PipelinePhase::Finalizing {
                            entered += 1;
                        }
                        if over {
                            assert_eq!(next, phase);
                            assert_eq!(action, StreamAction::Stop);
                        }
                        if next == PipelinePhase::Complete && phase != PipelinePhase::Complete {
                            assert_eq!(phase, PipelinePhase::Finalizing);
                            assert_eq!(event, StreamEvent::Finalized);
                        }
                        over = next.outcome().is_some();
                        phase = next;
                    }
                    assert!(entered <= 1);
                }
            }
        }
    }
}
