use audio_worker::chain::EffectChain;
use audio_worker::config::{delay_length, AudioJob, ConfigError, EffectConfig};
use audio_worker::pipeline::{
    StreamFormat, BITS_PER_SAMPLE, DEFAULT_CHANNELS, DEFAULT_SAMPLE_RATE,
};
use audio_worker::sample::Sample;

/// Samples counted in sixteenths, enough for what is checked here.
#[derive(Clone, Copy, Debug, PartialEq)]
struct Q(i64);

impl Sample for Q {
    fn silence() -> Self {
        Q(0)
    }

    fn plus(self, other: Self) -> Self {
        Q(self.0 + other.0)
    }

    fn times(self, factor: Self) -> Self {
        Q(self.0 * factor.0 / 16)
    }

    fn over(self, divisor: Self) -> Self {
        Q(self.0 * 16 / divisor.0)
    }

    fn rounded(self) -> Self {
        Q((self.0 + 8).div_euclid(16) * 16)
    }

    fn power_of_two(bits: u32) -> Self {
        Q(16 << bits)
    }
}

fn job(effects: Vec<EffectConfig<Q>>) -> AudioJob<Q> {
    AudioJob {
        job_id: "job-1".to_string(),
        input_path: "https://example.org/in.flac".to_string(),
        output_path: "processed/out.wav".to_string(),
        effects,
    }
}

#[test]
fn delay_length_is_the_rounded_number_of_samples() {
    assert_eq!(delay_length(44100, 250), Ok(11025));
    assert_eq!(delay_length(44100, 1), Ok(44));
    assert_eq!(delay_length(48000, 20), Ok(960));
    assert_eq!(delay_length(22050, 3), Ok(66));
    assert_eq!(delay_length(1000, 1), Ok(1));
}

#[test]
fn delay_length_rounds_a_half_up() {
    assert_eq!(delay_length(1500, 1), Ok(2));
    assert_eq!(delay_length(500, 1), Ok(1));
    assert_eq!(delay_length(500, 3), Ok(2));
    assert_eq!(delay_length(1499, 1), Ok(1));
    assert_eq!(delay_length(2499, 1), Ok(2));
    assert_eq!(delay_length(2500, 1), Ok(3));
}

#[test]
fn delay_length_refuses_an_empty_line() {
    assert_eq!(delay_length(44100, 0), Err(ConfigError::ZeroDelay));
    assert_eq!(delay_length(0, 0), Err(ConfigError::ZeroDelay));
    assert_eq!(delay_length(499, 1), Err(ConfigError::DelayTooShort));
    assert_eq!(delay_length(0, 10), Err(ConfigError::DelayTooShort));
    assert_eq!(delay_length(1, 499), Err(ConfigError::DelayTooShort));
}

#[test]
fn delay_length_refuses_a_line_beyond_the_machine() {
    assert_eq!(delay_length(usize::MAX, usize::MAX), Err(ConfigError::DelayTooLong));
    assert_eq!(delay_length(usize::MAX, 1001), Err(ConfigError::DelayTooLong));
    assert_eq!(delay_length(usize::MAX, 1000), Ok(usize::MAX));
}

#[test]
fn check_finds_what_is_wrong_at_any_rate() {
    assert_eq!(EffectConfig::<Q>::Bitcrusher { bits: 0 }.check(), Err(ConfigError::ZeroBits));
    assert_eq!(EffectConfig::<Q>::Bitcrusher { bits: 1 }.check(), Ok(()));
    assert_eq!(EffectConfig::<Q>::Bitcrusher { bits: u32::MAX }.check(), Ok(()));
    assert_eq!(
        (EffectConfig::Delay { delay_ms: 0, feedback: Q(8), mix: Q(8) }).check(),
        Err(ConfigError::ZeroDelay)
    );
    assert_eq!((EffectConfig::Delay { delay_ms: 1, feedback: Q(8), mix: Q(8) }).check(), Ok(()));
    assert_eq!((EffectConfig::Gain { amount: Q(0) }).check(), Ok(()));
    assert_eq!((EffectConfig::Gain { amount: Q(-64) }).check(), Ok(()));
}

#[test]
fn validate_accepts_a_job_without_faults() {
    assert_eq!(job(vec![]).validate(), Ok(()));
    assert_eq!(
        job(vec![
            EffectConfig::Gain { amount: Q(32) },
            EffectConfig::Bitcrusher { bits: 8 },
            EffectConfig::Delay { delay_ms: 120, feedback: Q(4), mix: Q(8) },
        ])
        .validate(),
        Ok(())
    );
}

#[test]
fn validate_reports_the_first_fault() {
    assert_eq!(
        job(vec![
            EffectConfig::Gain { amount: Q(32) },
            EffectConfig::Delay { delay_ms: 0, feedback: Q(4), mix: Q(8) },
            EffectConfig::Bitcrusher { bits: 0 },
        ])
        .validate(),
        Err(ConfigError::ZeroDelay)
    );
    assert_eq!(
        job(vec![
            EffectConfig::Bitcrusher { bits: 0 },
            EffectConfig::Delay { delay_ms: 0, feedback: Q(4), mix: Q(8) },
        ])
        .validate(),
        Err(ConfigError::ZeroBits)
    );
}

#[test]
fn build_keeps_the_order_of_the_job() {
    let built = EffectChain::build(
        vec![
            EffectConfig::Gain { amount: Q(32) },
            EffectConfig::Delay { delay_ms: 2, feedback: Q(0), mix: Q(16) },
        ],
        1000,
    );
    match built {
        Ok(mut chain) => {
            assert_eq!(chain.len(), 2);
            let mut samples = vec![Q(16), Q(0), Q(0)];
            chain.process_block(&mut samples);
            assert_eq!(samples, vec![Q(32), Q(0), Q(32)]);
        },
        Err(e) => panic!("the chain was refused: {:?}", e),
    }
}

#[test]
fn build_of_no_effects_is_the_empty_chain() {
    match EffectChain::<Q>::build(vec![], 44100) {
        Ok(mut chain) => {
            assert_eq!(chain.len(), 0);
            let mut samples = vec![Q(3), Q(-5)];
            chain.process_block(&mut samples);
            assert_eq!(samples, vec![Q(3), Q(-5)]);
        },
        Err(e) => panic!("the chain was refused: {:?}", e),
    }
}

#[test]
fn build_reports_the_first_effect_that_cannot_be_built() {
    let built = EffectChain::build(
        vec![
            EffectConfig::Gain { amount: Q(32) },
            EffectConfig::Delay { delay_ms: 1, feedback: Q(0), mix: Q(16) },
            EffectConfig::Bitcrusher { bits: 0 },
        ],
        100,
    );
    assert!(matches!(built, Err(ConfigError::DelayTooShort)));
    let built = EffectChain::build(
        vec![
            EffectConfig::Bitcrusher { bits: 0 },
            EffectConfig::Delay { delay_ms: 1, feedback: Q(0), mix: Q(16) },
        ],
        100,
    );
    assert!(matches!(built, Err(ConfigError::ZeroBits)));
}

#[test]
fn format_takes_what_the_metadata_gives() {
    let format = StreamFormat::from_metadata(Some(1), Some(48000));
    assert_eq!(format, StreamFormat { channels: 1, sample_rate: 48000 });
    let format = StreamFormat::from_metadata(Some(6), Some(8000));
    assert_eq!(format, StreamFormat { channels: 6, sample_rate: 8000 });
}

#[test]
fn format_falls_back_to_stereo_at_44100() {
    assert_eq!(DEFAULT_CHANNELS, 2);
    assert_eq!(DEFAULT_SAMPLE_RATE, 44100);
    assert_eq!(BITS_PER_SAMPLE, 32);
    assert_eq!(
        StreamFormat::from_metadata(None, None),
        StreamFormat { channels: 2, sample_rate: 44100 }
    );
    assert_eq!(
        StreamFormat::from_metadata(Some(1), None),
        StreamFormat { channels: 1, sample_rate: 44100 }
    );
    assert_eq!(
        StreamFormat::from_metadata(None, Some(96000)),
        StreamFormat { channels: 2, sample_rate: 96000 }
    );
}

#[test]
fn bind_uses_the_sample_rate_of_the_stream() {
    let format = StreamFormat::from_metadata(None, Some(2000));
    match format.bind(vec![EffectConfig::Delay { delay_ms: 1, feedback: Q(0), mix: Q(16) }]) {
        Ok(mut chain) => {
            let mut samples = vec![Q(16), Q(0), Q(0), Q(0)];
            chain.process_block(&mut samples);
            assert_eq!(samples, vec![Q(16), Q(0), Q(16), Q(0)]);
        },
        Err(e) => panic!("the chain was refused: {:?}", e),
    }
    let slow = StreamFormat::from_metadata(None, Some(100));
    assert!(matches!(
        slow.bind(vec![EffectConfig::Delay { delay_ms: 1, feedback: Q(0), mix: Q(16) }]),
        Err(ConfigError::DelayTooShort)
    ));
}
