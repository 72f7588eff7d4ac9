//! The sampling mode of a run, chosen and checked before any line is read.

use vstd::prelude::*;
use crate::bernoulli::ALWAYS;

verus! {

/// Exactly one of the two samplers: a fixed size `k`, or a keep threshold
/// (a probability scaled by `2^53`, see `bernoulli`).
#[derive(Clone, Copy, Debug, PartialEq, Eq, Structural)]
pub enum Mode {
    FixedSize(usize),
    Probability(u64),
}

/// A run that cannot start.
#[derive(Clone, Copy, Debug, PartialEq, Eq, Structural)]
pub enum ConfigError {
    /// Neither a size nor a rate was given.
    NoMode,
    /// Both a size and a rate were given.
    BothModes,
    /// The rate lies above one.
    RateOutOfRange,
}

/// The message shown to the operator for each error.
pub open spec fn message_of(e: ConfigError) -> Seq<char> {
    match e {
        ConfigError::NoMode => "Must specify either -n <NUM> or -r <RATE>"@,
        ConfigError::BothModes => "Cannot specify both -n <NUM> and -r <RATE>"@,
        ConfigError::RateOutOfRange => "Rate must be between 0.0 and 1.0"@,
    }
}

impl ConfigError {
    /// The message shown to the operator.
    pub fn message(&self) -> (r: String)
        ensures
            r@ == message_of(*self),
    {
        match self {
            ConfigError::NoMode => "Must specify either -n <NUM> or -r <RATE>".to_string(),
            ConfigError::BothModes => "Cannot specify both -n <NUM> and -r <RATE>".to_string(),
            ConfigError::RateOutOfRange => "Rate must be between 0.0 and 1.0".to_string(),
        }
    }
}

/// Chooses the sampler from an optional size and an optional scaled rate.
pub fn select_mode(sample_size: Option<usize>, threshold: Option<u64>) -> (r: Result<Mode, ConfigError>)
    ensures
        sample_size is None && threshold is None ==> r == Err::<Mode, ConfigError>(ConfigError::NoMode),
        sample_size is Some && threshold is Some ==> r == Err::<Mode, ConfigError>(ConfigError::BothModes),
        sample_size is Some && threshold is None ==> r == Ok::<Mode, ConfigError>(Mode::FixedSize(sample_size->0)),
        sample_size is None && threshold is Some ==> (r == if threshold->0 <= ALWAYS {
            Ok::<Mode, ConfigError>(Mode::Probability(threshold->0))
        } else {
            Err::<Mode, ConfigError>(ConfigError::RateOutOfRange)
        }),
{
    match (sample_size, threshold) {
        (None, None) => Err(ConfigError::NoMode),
        (Some(_), Some(_)) => Err(ConfigError::BothModes),
        (Some(k), None) => Ok(Mode::FixedSize(k)),
        (None, Some(t)) => {
            if t <= ALWAYS {
                Ok(Mode::Probability(t))
            } else {
                Err(ConfigError::RateOutOfRange)
            }
        },
    }
}

} // verus!
