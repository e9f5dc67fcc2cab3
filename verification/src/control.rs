//! Bookkeeping of a training run: policy versions and where the parts of
//! the run are reached.

use vstd::prelude::*;

verus! {

/// Failure of the coordinator, with the text of what went wrong.
#[derive(Debug, Clone, PartialEq, Eq)]
pub enum ControlError {
    ControlError(String),
}

impl ControlError {
    /// Text of the error as shown to a user.
    pub open spec fn spec_message(&self) -> Seq<char> {
        match self {
            ControlError::ControlError(detail) => "Control error: "@ + detail@,
        }
    }

    /// Renders the error as shown to a user.
    pub fn message(&self) -> (text: String)
        ensures
            text@ == self.spec_message(),
    {
        match self {
            ControlError::ControlError(detail) => vstd::string::StringExecFns::concat(
                "Control error: ".to_string(),
                detail.as_str(),
            ),
        }
    }
}

/// Numeric precision of model weights.
#[derive(Debug, Clone, Copy, PartialEq, Eq)]
pub enum Precision {
    FP32,
    BF16,
    FP16,
    FP8,
    INT8,
}

/// A version of the policy: its number and where its weights are kept.
#[derive(Debug, Clone, PartialEq, Eq)]
pub struct PolicyVersion {
    pub id: u64,
    /// Location of the base, high-precision weights.
    pub checkpoint_uri: String,
    pub base_precision: Precision,
}

/// How the weights are quantized for rollouts.
#[derive(Debug, Clone, PartialEq, Eq)]
pub struct QuantConfig {
    /// Precision of the rollout weights.
    pub precision: Precision,
    /// Name of the quantization scheme.
    pub scheme: String,
    /// Location of the calibration data, if the scheme needs any.
    pub calib_uri: Option<String>,
}

/// The state of a run: the current policy, the rollout configuration and
/// the endpoints.
#[derive(Debug, Clone, PartialEq, Eq)]
pub struct RunInfo {
    pub current_version: PolicyVersion,
    pub rollout_quant: Option<QuantConfig>,
    pub inference_addrs: Vec<String>,
    pub learner_addr: String,
}

} // verus!
