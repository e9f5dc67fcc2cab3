//! Fan-out routing of inference requests across backend engines.

pub mod assembly;
pub mod batching;
pub mod client;
pub mod lifecycle;
pub mod outcomes;
pub mod routing;
pub mod trajectory;
pub mod types;

pub use client::InferenceEngineClient;
pub use types::{
    Conversation, InferenceEngineInput, InferenceEngineOutput, InferenceError, Message,
    NamedWeightUpdateRequest, SamplingParams, StopReason,
};
