//! The streaming transcode pipeline of one job: blocks come from a decoder, go through the
//! effect chain and on to an encoder. The pipeline itself reads and writes nothing. It
//! tells its driver what to do next, and the driver reports what came of it.

use vstd::prelude::*;
use crate::chain::EffectChain;
use crate::config::{ConfigError, EffectConfig};
use crate::sample::Sample;

verus! {

/// The channel count of a stream whose metadata gives none.
pub const DEFAULT_CHANNELS: u16 = 2;

/// The sample rate of a stream whose metadata gives none, in samples per second.
pub const DEFAULT_SAMPLE_RATE: u32 = 44100;

/// The width of an output sample, in bits.
pub const BITS_PER_SAMPLE: u16 = 32;

/// The layout of a stream of interleaved samples. The output has the layout of the source.
#[derive(Clone, Copy, Debug, PartialEq, Eq, Structural)]
pub struct StreamFormat {
    pub channels: u16,
    pub sample_rate: u32,
}

impl StreamFormat {
    /// The layout that the stream's metadata gives, with the defaults for what it leaves
    /// out.
    pub fn from_metadata(channels: Option<u16>, sample_rate: Option<u32>) -> (format: Self)
        ensures
            format.channels == match channels {
                Some(count) => count,
                None => DEFAULT_CHANNELS,
            },
            format.sample_rate == match sample_rate {
                Some(rate) => rate,
                None => DEFAULT_SAMPLE_RATE,
            },
    {
        StreamFormat {
            channels: match channels {
                Some(count) => count,
                None => DEFAULT_CHANNELS,
            },
            sample_rate: match sample_rate {
                Some(rate) => rate,
                None => DEFAULT_SAMPLE_RATE,
            },
        }
    }

    /// Binds the effects of a job to the stream's sample rate. This comes before the
    /// first block.
    pub fn bind<S: Sample>(&self, configs: Vec<EffectConfig<S>>) -> (r: Result<
        EffectChain<S>,
        ConfigError,
    >)
        ensures
            EffectChain::built(configs@, self.sample_rate as usize, r),
    {
        EffectChain::build(configs, self.sample_rate as usize)
    }
}

/// Why a pipeline gave up.
#[derive(Clone, Copy, Debug, PartialEq, Eq, Structural)]
pub enum PipelineError {
    /// The source could not be decoded.
    Decode,
    /// The output could not be written or finalized.
    Encode,
}

/// Where a pipeline stands.
#[derive(Clone, Copy, Debug, PartialEq, Eq, Structural)]
pub enum PipelinePhase {
    /// The next block is being read and decoded.
    Reading,
    /// A decoded block is going through the chain and to the encoder.
    Writing,
    /// The stream has ended and the output is being finalized.
    Finalizing,
    /// The output is finalized.
    Complete,
    /// The pipeline gave up. The output is not finalized.
    Failed(PipelineError),
}

/// What the driver reports.
#[derive(Clone, Copy, Debug, PartialEq, Eq, Structural)]
pub enum StreamEvent {
    /// The decoder delivered a block of the selected track.
    Block,
    /// The packet read belongs to another track.
    OtherTrack,
    /// A block could not be decoded for a passing reason, such as a hiccup of the source.
    TransientError,
    /// The decoder asks for a reset of the stream.
    ResetRequired,
    /// The source has no more packets.
    EndOfStream,
    /// The decoder failed for any other reason.
    FatalError,
    /// The block went through the chain and the encoder took it.
    Written,
    /// The encoder refused the block.
    WriteFailed,
    /// The output is finalized.
    Finalized,
    /// The output could not be finalized.
    FinalizeFailed,
}

/// What the driver is to do next.
#[derive(Clone, Copy, Debug, PartialEq, Eq, Structural)]
pub enum StreamAction {
    /// Read the next packet and decode it.
    ReadNext,
    /// Apply the chain to the block in hand, then hand the block to the encoder.
    TransformAndWrite,
    /// Finalize the output.
    Finalize,
    /// Nothing: the pipeline is over.
    Stop,
}

/// The phase that follows `phase` on `event`. An event that does not belong to the phase
/// changes nothing.
pub open spec fn next_phase(phase: PipelinePhase, event: StreamEvent) -> PipelinePhase {
    match (phase, event) {
        (PipelinePhase::Reading, StreamEvent::Block) => PipelinePhase::Writing,
        (PipelinePhase::Reading, StreamEvent::OtherTrack) => PipelinePhase::Reading,
        (PipelinePhase::Reading, StreamEvent::TransientError) => PipelinePhase::Reading,
        (PipelinePhase::Reading, StreamEvent::ResetRequired) => PipelinePhase::Finalizing,
        (PipelinePhase::Reading, StreamEvent::EndOfStream) => PipelinePhase::Finalizing,
        (PipelinePhase::Reading, StreamEvent::FatalError) => PipelinePhase::Failed(
            PipelineError::Decode,
        ),
        (PipelinePhase::Writing, StreamEvent::Written) => PipelinePhase::Reading,
        (PipelinePhase::Writing, StreamEvent::WriteFailed) => PipelinePhase::Failed(
            PipelineError::Encode,
        ),
        (PipelinePhase::Finalizing, StreamEvent::Finalized) => PipelinePhase::Complete,
        (PipelinePhase::Finalizing, StreamEvent::FinalizeFailed) => PipelinePhase::Failed(
            PipelineError::Encode,
        ),
        _ => phase,
    }
}

/// What the driver is to do in `phase`.
pub open spec fn action_in(phase: PipelinePhase) -> StreamAction {
    match phase {
        PipelinePhase::Reading => StreamAction::ReadNext,
        PipelinePhase::Writing => StreamAction::TransformAndWrite,
        PipelinePhase::Finalizing => StreamAction::Finalize,
        PipelinePhase::Complete => StreamAction::Stop,
        PipelinePhase::Failed(_) => StreamAction::Stop,
    }
}

/// The phase reached from `phase` after the events `events`, in order.
pub open spec fn phase_after(phase: PipelinePhase, events: Seq<StreamEvent>) -> PipelinePhase
    decreases events.len(),
{
    if events.len() == 0 {
        phase
    } else {
        next_phase(phase_after(phase, events.drop_last()), events.last())
    }
}

/// How far a pipeline has come: 0 while blocks flow, 1 while the output is finalized, 2
/// when it is over.
pub open spec fn stage(phase: PipelinePhase) -> nat {
    match phase {
        PipelinePhase::Reading => 0,
        PipelinePhase::Writing => 0,
        PipelinePhase::Finalizing => 1,
        PipelinePhase::Complete => 2,
        PipelinePhase::Failed(_) => 2,
    }
}

impl PipelinePhase {
    /// The phase in which every pipeline starts.
    pub fn start() -> (phase: PipelinePhase)
        ensures
            phase == PipelinePhase::Reading,
    {
        PipelinePhase::Reading
    }

    /// What the driver is to do now.
    pub fn action(self) -> (action: StreamAction)
        ensures
            action == action_in(self),
    {
        match self {
            PipelinePhase::Reading => StreamAction::ReadNext,
            PipelinePhase::Writing => StreamAction::TransformAndWrite,
            PipelinePhase::Finalizing => StreamAction::Finalize,
            PipelinePhase::Complete => StreamAction::Stop,
            PipelinePhase::Failed(_) => StreamAction::Stop,
        }
    }

    /// Takes in what the driver reports and says what it is to do next.
    pub fn step(self, event: StreamEvent) -> (r: (PipelinePhase, StreamAction))
        ensures
            r.0 == next_phase(self, event),
            r.1 == action_in(r.0),
    {
        let next = match self {
            PipelinePhase::Reading => match event {
                StreamEvent::Block => PipelinePhase::Writing,
                StreamEvent::ResetRequired => PipelinePhase::Finalizing,
                StreamEvent::EndOfStream => PipelinePhase::Finalizing,
                StreamEvent::FatalError => PipelinePhase::Failed(PipelineError::Decode),
                _ => PipelinePhase::Reading,
            },
            PipelinePhase::Writing => match event {
                StreamEvent::Written => PipelinePhase::Reading,
                StreamEvent::WriteFailed => PipelinePhase::Failed(PipelineError::Encode),
                _ => PipelinePhase::Writing,
            },
            PipelinePhase::Finalizing => match event {
                StreamEvent::Finalized => PipelinePhase::Complete,
                StreamEvent::FinalizeFailed => PipelinePhase::Failed(PipelineError::Encode),
                _ => PipelinePhase::Finalizing,
            },
            PipelinePhase::Complete => PipelinePhase::Complete,
            PipelinePhase::Failed(e) => PipelinePhase::Failed(e),
        };
        (next, next.action())
    }

    /// How the pipeline ended, if it is over.
    pub fn outcome(self) -> (r: Option<Result<(), PipelineError>>)
        ensures
            r == match self {
                PipelinePhase::Complete => Some(Ok::<(), PipelineError>(())),
                PipelinePhase::Failed(e) => Some(Err::<(), PipelineError>(e)),
                _ => None,
            },
    {
        match self {
            PipelinePhase::Complete => Some(Ok(())),
            PipelinePhase::Failed(e) => Some(Err(e)),
            _ => None,
        }
    }
}

/// A pipeline never goes back: whatever the driver reports, no block is read or written
/// once the output is being finalized, and a pipeline that is over stays as it is.
pub proof fn lemma_never_back(phase: PipelinePhase, events: Seq<StreamEvent>, earlier: int, later: int)
    requires
        0 <= earlier <= later <= events.len(),
    ensures
        stage(phase_after(phase, events.take(earlier))) <= stage(
            phase_after(phase, events.take(later)),
        ),
        stage(phase_after(phase, events.take(earlier))) == 2 ==> phase_after(
            phase,
            events.take(later),
        ) == phase_after(phase, events.take(earlier)),
    decreases later - earlier,
{
    if earlier < later {
        lemma_never_back(phase, events, earlier, later - 1);
        assert(events.take(later).drop_last() =~= events.take(later - 1));
    }
}

/// The output is finalized once, after the last block, and only where nothing failed: a
/// pipeline becomes complete by no other step than the report `Finalized` while it is
/// finalizing, it starts to finalize by no other step than the end of the stream while it
/// is reading, and a failed pipeline never finalizes.
pub proof fn lemma_finalized_once(phase: PipelinePhase, event: StreamEvent)
    ensures
        next_phase(phase, event) == PipelinePhase::Complete && phase != PipelinePhase::Complete
            ==> phase == PipelinePhase::Finalizing && event == StreamEvent::Finalized,
        next_phase(phase, event) == PipelinePhase::Finalizing && phase
            != PipelinePhase::Finalizing ==> phase == PipelinePhase::Reading && (event
            == StreamEvent::EndOfStream || event == StreamEvent::ResetRequired),
        phase is Failed ==> action_in(next_phase(phase, event)) == StreamAction::Stop,
{
}

} // verus!
