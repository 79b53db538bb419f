//! A worker for audio jobs: an ordered chain of effects applied block by block to a stream
//! of interleaved samples, the pipeline that carries the blocks from decoder to encoder,
//! and the lifecycle of a job from the queue to its acknowledgment.
//!
//! The library decides and computes; it reads and writes nothing. Its driver decodes,
//! encodes, fetches, uploads and talks to the queue, and reports what came of it.

pub mod chain;
pub mod config;
pub mod delay;
pub mod effects;
pub mod job;
pub mod pipeline;
pub mod sample;
pub mod status;

pub use chain::{Effect, EffectChain};
pub use config::{AudioJob, ConfigError, EffectConfig};
pub use delay::SimpleDelay;
pub use effects::{AudioEffect, BitCrusher, Gain};
pub use job::{JobAction, JobError, JobPhase, JobState, Outcome};
pub use pipeline::{PipelineError, PipelinePhase, StreamAction, StreamEvent, StreamFormat};
pub use sample::Sample;
pub use status::JobStatusMessage;
