//! What a job asks for: the effects to apply, as they arrive with the job, and the checks
//! that turn them into effects bound to a sample rate.

use vstd::prelude::*;
use crate::chain::{Effect, EffectState};
use crate::delay::SimpleDelay;
use crate::effects::{AudioEffect, BitCrusher, Gain};
use crate::sample::{is_silence, Sample};

verus! {

/// The configuration of one effect.
#[derive(Debug)]
pub enum EffectConfig<S> {
    Bitcrusher { bits: u32 },
    Delay { delay_ms: usize, feedback: S, mix: S },
    Gain { amount: S },
}

impl<S: Copy> Copy for EffectConfig<S> {

}

impl<S: Copy> Clone for EffectConfig<S> {
    fn clone(&self) -> (copy: Self)
        ensures
            copy == *self,
    {
        *self
    }
}

/// Why an effect configuration is refused.
#[derive(Clone, Copy, Debug, PartialEq, Eq, Structural)]
pub enum ConfigError {
    /// A bit crusher with zero bits: it has no quantization step.
    ZeroBits,
    /// A delay of zero milliseconds.
    ZeroDelay,
    /// A delay so short that, at the stream's sample rate, its line would hold no sample.
    DelayTooShort,
    /// A delay whose line would hold more samples than the machine can address.
    DelayTooLong,
}

/// A unit of work: where the audio comes from, where the result goes, and the effects to
/// apply, in this order.
#[derive(Debug)]
pub struct AudioJob<S> {
    pub job_id: String,
    pub input_path: String,
    pub output_path: String,
    pub effects: Vec<EffectConfig<S>>,
}

/// The number of samples in `delay_ms` milliseconds at `sample_rate` samples per second,
/// rounded to the nearest whole number (a half rounds up).
pub open spec fn rounded_delay(sample_rate: nat, delay_ms: nat) -> nat {
    (sample_rate * delay_ms + 500) / 1000
}

/// The length of the line of a delay of `delay_ms` milliseconds at `sample_rate`, or why
/// there is no such line.
pub open spec fn delay_length_of(sample_rate: usize, delay_ms: usize) -> Result<usize, ConfigError> {
    let samples = rounded_delay(sample_rate as nat, delay_ms as nat);
    if delay_ms == 0 {
        Err(ConfigError::ZeroDelay)
    } else if samples == 0 {
        Err(ConfigError::DelayTooShort)
    } else if samples > usize::MAX {
        Err(ConfigError::DelayTooLong)
    } else {
        Ok(samples as usize)
    }
}

/// `rounded_delay` is the whole number nearest to `sample_rate * delay_ms / 1000`.
pub proof fn lemma_rounded_delay_is_nearest(sample_rate: nat, delay_ms: nat)
    ensures
        1000 * rounded_delay(sample_rate, delay_ms) - 500 <= sample_rate * delay_ms,
        sample_rate * delay_ms < 1000 * rounded_delay(sample_rate, delay_ms) + 500,
{
}

/// Computes the length of a delay line, in samples.
pub fn delay_length(sample_rate: usize, delay_ms: usize) -> (length: Result<usize, ConfigError>)
    ensures
        length == delay_length_of(sample_rate, delay_ms),
{
    if delay_ms == 0 {
        return Err(ConfigError::ZeroDelay);
    }
    assert(sample_rate * delay_ms <= 0xffff_ffff_ffff_ffff * 0xffff_ffff_ffff_ffff) by (nonlinear_arith)
        requires
            sample_rate <= 0xffff_ffff_ffff_ffff,
            delay_ms <= 0xffff_ffff_ffff_ffff,
    ;
    let product: u128 = (sample_rate as u128) * (delay_ms as u128);
    let samples: u128 = (product + 500) / 1000;
    if samples == 0 {
        Err(ConfigError::DelayTooShort)
    } else if samples > usize::MAX as u128 {
        Err(ConfigError::DelayTooLong)
    } else {
        Ok(samples as usize)
    }
}

impl<S: Sample> EffectConfig<S> {
    /// What is wrong with the configuration whatever the sample rate, if anything.
    pub open spec fn fault(self) -> Option<ConfigError> {
        match self {
            EffectConfig::Bitcrusher { bits } => if bits == 0 {
                Some(ConfigError::ZeroBits)
            } else {
                None
            },
            EffectConfig::Delay { delay_ms, .. } => if delay_ms == 0 {
                Some(ConfigError::ZeroDelay)
            } else {
                None
            },
            EffectConfig::Gain { .. } => None,
        }
    }

    /// What is wrong with the configuration at `sample_rate`, if anything.
    pub open spec fn fault_at(self, sample_rate: usize) -> Option<ConfigError> {
        match self {
            EffectConfig::Delay { delay_ms, .. } => match delay_length_of(sample_rate, delay_ms) {
                Ok(_) => None,
                Err(e) => Some(e),
            },
            _ => self.fault(),
        }
    }

    /// `effect` is the effect that the configuration describes, bound to `sample_rate`
    /// and in its first state: a delay's line is silent.
    pub open spec fn describes(self, sample_rate: usize, effect: EffectState<S>) -> bool {
        match self {
            EffectConfig::Bitcrusher { bits } => effect == EffectState::<S>::BitCrusher { bits },
            EffectConfig::Gain { amount } => effect == (EffectState::Gain { amount }),
            EffectConfig::Delay { delay_ms, feedback, mix } => {
                &&& effect matches EffectState::Delay(line)
                &&& delay_length_of(sample_rate, delay_ms) == Ok::<usize, ConfigError>(line.window.len() as usize)
                &&& line.window.len() <= usize::MAX
                &&& line.feedback == feedback
                &&& line.mix == mix
                &&& forall|k: int| 0 <= k < line.window.len() ==> is_silence(#[trigger] line.window[k])
            },
        }
    }

    /// Checks what can be checked before the sample rate is known.
    pub fn check(&self) -> (r: Result<(), ConfigError>)
        ensures
            r == match self.fault() {
                Some(e) => Err::<(), ConfigError>(e),
                None => Ok::<(), ConfigError>(()),
            },
    {
        match self {
            EffectConfig::Bitcrusher { bits } => {
                if *bits == 0 {
                    Err(ConfigError::ZeroBits)
                } else {
                    Ok(())
                }
            },
            EffectConfig::Delay { delay_ms, .. } => {
                if *delay_ms == 0 {
                    Err(ConfigError::ZeroDelay)
                } else {
                    Ok(())
                }
            },
            EffectConfig::Gain { .. } => Ok(()),
        }
    }

    /// Builds the effect for a stream of `sample_rate` samples per second.
    pub fn into_effect(self, sample_rate: usize) -> (r: Result<Effect<S>, ConfigError>)
        ensures
            match r {
                Ok(effect) => self.fault_at(sample_rate) is None && effect.ready()
                    && self.describes(sample_rate, effect@),
                Err(e) => self.fault_at(sample_rate) == Some(e),
            },
    {
        match self {
            EffectConfig::Bitcrusher { bits } => {
                if bits == 0 {
                    Err(ConfigError::ZeroBits)
                } else {
                    Ok(Effect::BitCrusher(BitCrusher { bits }))
                }
            },
            EffectConfig::Delay { delay_ms, feedback, mix } => {
                match delay_length(sample_rate, delay_ms) {
                    Ok(delay_samples) => Ok(
                        Effect::Delay(SimpleDelay::new(delay_samples, feedback, mix)),
                    ),
                    Err(e) => Err(e),
                }
            },
            EffectConfig::Gain { amount } => Ok(Effect::Gain(Gain { amount })),
        }
    }
}

/// What is wrong with a configuration whatever the sample rate is wrong with it at every
/// sample rate.
pub proof fn lemma_fault_at_every_rate<S: Sample>(config: EffectConfig<S>, sample_rate: usize)
    ensures
        config.fault() is Some ==> config.fault_at(sample_rate) == config.fault(),
{
}

impl<S: Sample> AudioJob<S> {
    /// `r` is what checking the effects `configs` gives: the fault of the first
    /// configuration that has one, and success where none has.
    pub open spec fn checked(configs: Seq<EffectConfig<S>>, r: Result<(), ConfigError>) -> bool {
        match r {
            Ok(_) => forall|i: int| 0 <= i < configs.len() ==> (#[trigger] configs[i]).fault() is None,
            Err(e) => exists|i: int|
                {
                    &&& 0 <= i < configs.len()
                    &&& (#[trigger] configs[i]).fault() == Some(e)
                    &&& forall|j: int| 0 <= j < i ==> (#[trigger] configs[j]).fault() is None
                },
        }
    }

    /// Checks the job's effects when the job is accepted, before any of it is processed.
    pub fn validate(&self) -> (r: Result<(), ConfigError>)
        ensures
            Self::checked(self.effects@, r),
    {
        let n = self.effects.len();
        let mut i: usize = 0;
        while i < n
            invariant
                i <= n,
                n == self.effects@.len(),
                forall|k: int| 0 <= k < i ==> (#[trigger] self.effects@[k]).fault() is None,
            decreases n - i,
        {
            match self.effects[i].check() {
                Ok(_) => {},
                Err(e) => {
                    return Err(e);
                },
            }
            i = i + 1;
        }
        Ok(())
    }
}

} // verus!
