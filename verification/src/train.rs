//! Configuration and statistics of a training run.

use std::time::Duration;
use vstd::prelude::*;

verus! {

/// Where inference runs relative to training.
#[derive(Debug, Clone, Copy, PartialEq, Eq)]
pub enum InferenceMode {
    /// Inference and training run on different devices.
    Dedicated,
    /// Inference and training share their devices.
    Colocated,
}

/// Limits and endpoints of a training run.
#[derive(Debug, Clone, PartialEq, Eq)]
pub struct TrainConfig {
    pub max_steps: Option<u64>,
    pub max_episodes: Option<u64>,
    pub coordinator_addr: Option<String>,
    pub inference_mode: InferenceMode,
}

impl Default for TrainConfig {
    /// A run of at most 100 000 steps with dedicated inference and no
    /// coordinator.
    fn default() -> (config: Self)
        ensures
            config.max_steps == Some(100_000u64),
            config.max_episodes is None,
            config.coordinator_addr is None,
            config.inference_mode == InferenceMode::Dedicated,
    {
        Self {
            max_steps: Some(100_000),
            max_episodes: None,
            coordinator_addr: None,
            inference_mode: InferenceMode::Dedicated,
        }
    }
}

/// What a finished training run reports.
#[derive(Debug)]
pub struct TrainingStats {
    pub total_steps: u64,
    pub total_episodes: u64,
    pub training_time: Duration,
    pub final_version: u64,
}

} // verus!
