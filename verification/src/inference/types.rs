//! Request, response and error types exchanged with backend engines.

use std::collections::HashMap;
use vstd::prelude::*;
use vstd::string::StringExecFns;

verus! {

/// A free-form JSON value (`serde_json::Value`), carried through the router
/// untouched; nothing is assumed about what it holds.
#[verifier::external_type_specification]
#[verifier::external_body]
pub struct ExJsonValue(serde_json::Value);

/// One turn of a conversation.
#[derive(Debug, PartialEq, Eq)]
pub struct Message {
    /// Speaker of the turn: `"user"`, `"assistant"` or `"system"`.
    pub role: String,
    pub content: String,
}

/// Mathematical content of a [`Message`].
pub struct MessageView {
    pub role: Seq<char>,
    pub content: Seq<char>,
}

impl DeepView for Message {
    type V = MessageView;

    open spec fn deep_view(&self) -> MessageView {
        MessageView { role: self.role@, content: self.content@ }
    }
}

impl Clone for Message {
    fn clone(&self) -> (res: Self)
        ensures
            res == *self,
    {
        Message { role: self.role.clone(), content: self.content.clone() }
    }
}

/// A structured prompt: the ordered turns of one conversation.
pub type Conversation = Vec<Message>;

/// Sampling configuration forwarded verbatim to every backend.
///
/// `temperature` and `top_p` hold the IEEE-754 single-precision bit pattern of
/// the configured value, so that the configuration stays a plain value the
/// router can copy and compare exactly.
#[derive(Debug, PartialEq)]
pub struct SamplingParams {
    pub temperature: Option<u32>,
    pub max_tokens: Option<u32>,
    pub top_p: Option<u32>,
    pub top_k: Option<u32>,
    pub stop: Option<Vec<String>>,
    pub extra: Option<HashMap<String, serde_json::Value>>,
}

/// Mathematical content of a [`SamplingParams`].
pub struct SamplingParamsView {
    pub temperature: Option<u32>,
    pub max_tokens: Option<u32>,
    pub top_p: Option<u32>,
    pub top_k: Option<u32>,
    pub stop: Option<Seq<Seq<char>>>,
    pub extra: Option<Map<String, serde_json::Value>>,
}

impl DeepView for SamplingParams {
    type V = SamplingParamsView;

    open spec fn deep_view(&self) -> SamplingParamsView {
        SamplingParamsView {
            temperature: self.temperature,
            max_tokens: self.max_tokens,
            top_p: self.top_p,
            top_k: self.top_k,
            stop: self.stop.deep_view(),
            extra: match self.extra {
                Some(extra) => Some(extra@),
                None => None,
            },
        }
    }
}

impl Clone for SamplingParams {
    fn clone(&self) -> (res: Self)
        ensures
            res.deep_view() == self.deep_view(),
    {
        let stop = self.stop.clone();
        let extra = self.extra.clone();
        assert(stop.deep_view() =~~= self.stop.deep_view());
        SamplingParams {
            temperature: self.temperature,
            max_tokens: self.max_tokens,
            top_p: self.top_p,
            top_k: self.top_k,
            stop,
            extra,
        }
    }
}

/// A request to the router or to one backend.
///
/// Exactly one of `prompts` and `prompt_token_ids` must be present;
/// `trajectory_ids`, when present, is aligned position by position with
/// whichever of the two is.
#[derive(Debug, PartialEq)]
pub struct InferenceEngineInput {
    pub prompts: Option<Vec<Conversation>>,
    pub prompt_token_ids: Option<Vec<Vec<i32>>>,
    pub sampling_params: Option<SamplingParams>,
    pub trajectory_ids: Option<Vec<String>>,
}

/// Mathematical content of an [`InferenceEngineInput`].
pub struct InferenceEngineInputView {
    pub prompts: Option<Seq<Seq<MessageView>>>,
    pub prompt_token_ids: Option<Seq<Seq<i32>>>,
    pub sampling_params: Option<SamplingParamsView>,
    pub trajectory_ids: Option<Seq<Seq<char>>>,
}

impl DeepView for InferenceEngineInput {
    type V = InferenceEngineInputView;

    open spec fn deep_view(&self) -> InferenceEngineInputView {
        InferenceEngineInputView {
            prompts: self.prompts.deep_view(),
            prompt_token_ids: self.prompt_token_ids.deep_view(),
            sampling_params: self.sampling_params.deep_view(),
            trajectory_ids: self.trajectory_ids.deep_view(),
        }
    }
}

impl InferenceEngineInput {
    /// Number of request items: the length of whichever input shape is
    /// present (prompts first), or zero when neither is.
    pub open spec fn spec_len(&self) -> nat {
        match (self.prompts, self.prompt_token_ids) {
            (Some(prompts), _) => prompts@.len(),
            (None, Some(tokens)) => tokens@.len(),
            (None, None) => 0,
        }
    }
}

impl Clone for InferenceEngineInput {
    fn clone(&self) -> (res: Self)
        ensures
            res.deep_view() == self.deep_view(),
    {
        let prompts = self.prompts.clone();
        let prompt_token_ids = self.prompt_token_ids.clone();
        let sampling_params = self.sampling_params.clone();
        let trajectory_ids = self.trajectory_ids.clone();
        assert(prompts.deep_view() =~~= self.prompts.deep_view());
        assert(prompt_token_ids.deep_view() =~~= self.prompt_token_ids.deep_view());
        assert(trajectory_ids.deep_view() =~~= self.trajectory_ids.deep_view());
        InferenceEngineInput { prompts, prompt_token_ids, sampling_params, trajectory_ids }
    }
}

/// Why a backend stopped generating.
#[derive(Debug, PartialEq, Eq)]
pub enum StopReason {
    /// Normal completion.
    Stop,
    /// The length limit was reached.
    Length,
    /// The backend reported an error for this item.
    Error,
    /// The request timed out.
    Timeout,
    /// Any other reason, as reported by the backend.
    Other(String),
}

/// Mathematical content of a [`StopReason`].
pub enum StopReasonView {
    Stop,
    Length,
    Error,
    Timeout,
    Other(Seq<char>),
}

impl DeepView for StopReason {
    type V = StopReasonView;

    open spec fn deep_view(&self) -> StopReasonView {
        match self {
            StopReason::Stop => StopReasonView::Stop,
            StopReason::Length => StopReasonView::Length,
            StopReason::Error => StopReasonView::Error,
            StopReason::Timeout => StopReasonView::Timeout,
            StopReason::Other(reason) => StopReasonView::Other(reason@),
        }
    }
}

impl Clone for StopReason {
    fn clone(&self) -> (res: Self)
        ensures
            res == *self,
    {
        match self {
            StopReason::Stop => StopReason::Stop,
            StopReason::Length => StopReason::Length,
            StopReason::Error => StopReason::Error,
            StopReason::Timeout => StopReason::Timeout,
            StopReason::Other(reason) => StopReason::Other(reason.clone()),
        }
    }
}

/// Responses of the router or of one backend, one per request item and in
/// request order.
#[derive(Debug, PartialEq, Eq)]
pub struct InferenceEngineOutput {
    pub responses: Vec<String>,
    pub stop_reasons: Vec<StopReason>,
}

/// Mathematical content of an [`InferenceEngineOutput`].
pub struct InferenceEngineOutputView {
    pub responses: Seq<Seq<char>>,
    pub stop_reasons: Seq<StopReasonView>,
}

impl DeepView for InferenceEngineOutput {
    type V = InferenceEngineOutputView;

    open spec fn deep_view(&self) -> InferenceEngineOutputView {
        InferenceEngineOutputView {
            responses: self.responses.deep_view(),
            stop_reasons: self.stop_reasons.deep_view(),
        }
    }
}

impl Clone for InferenceEngineOutput {
    fn clone(&self) -> (res: Self)
        ensures
            res.deep_view() == self.deep_view(),
    {
        let responses = self.responses.clone();
        let stop_reasons = self.stop_reasons.clone();
        assert(responses.deep_view() =~~= self.responses.deep_view());
        assert(stop_reasons.deep_view() =~~= self.stop_reasons.deep_view());
        InferenceEngineOutput { responses, stop_reasons }
    }
}

/// A weight tensor to be replaced on every backend.
#[derive(Debug, PartialEq)]
pub struct NamedWeightUpdateRequest {
    pub name: String,
    pub dtype: String,
    pub shape: Vec<usize>,
    pub extras: Option<HashMap<String, serde_json::Value>>,
}

/// Mathematical content of a [`NamedWeightUpdateRequest`].
pub struct NamedWeightUpdateRequestView {
    pub name: Seq<char>,
    pub dtype: Seq<char>,
    pub shape: Seq<usize>,
    pub extras: Option<Map<String, serde_json::Value>>,
}

impl DeepView for NamedWeightUpdateRequest {
    type V = NamedWeightUpdateRequestView;

    open spec fn deep_view(&self) -> NamedWeightUpdateRequestView {
        NamedWeightUpdateRequestView {
            name: self.name@,
            dtype: self.dtype@,
            shape: self.shape@,
            extras: match self.extras {
                Some(extras) => Some(extras@),
                None => None,
            },
        }
    }
}

impl Clone for NamedWeightUpdateRequest {
    fn clone(&self) -> (res: Self)
        ensures
            res.deep_view() == self.deep_view(),
    {
        let shape = self.shape.clone();
        let extras = self.extras.clone();
        assert(shape@ =~= self.shape@);
        NamedWeightUpdateRequest {
            name: self.name.clone(),
            dtype: self.dtype.clone(),
            shape,
            extras,
        }
    }
}

/// Failure of a router call or of one backend.
#[derive(Debug, PartialEq, Eq)]
pub enum InferenceError {
    /// The request is malformed or contradictory.
    InvalidInput(String),
    /// A backend could not be reached or answered out of protocol.
    CommunicationError(String),
    /// A backend did not answer within `seconds`.
    Timeout { seconds: u64 },
    /// No backend can take the request.
    EngineUnavailable,
}

/// Mathematical content of an [`InferenceError`].
pub enum InferenceErrorView {
    InvalidInput(Seq<char>),
    CommunicationError(Seq<char>),
    Timeout { seconds: u64 },
    EngineUnavailable,
}

impl DeepView for InferenceError {
    type V = InferenceErrorView;

    open spec fn deep_view(&self) -> InferenceErrorView {
        match self {
            InferenceError::InvalidInput(detail) => InferenceErrorView::InvalidInput(detail@),
            InferenceError::CommunicationError(detail) => InferenceErrorView::CommunicationError(
                detail@,
            ),
            InferenceError::Timeout { seconds } => InferenceErrorView::Timeout {
                seconds: *seconds,
            },
            InferenceError::EngineUnavailable => InferenceErrorView::EngineUnavailable,
        }
    }
}

impl Clone for InferenceError {
    fn clone(&self) -> (res: Self)
        ensures
            res == *self,
    {
        match self {
            InferenceError::InvalidInput(detail) => InferenceError::InvalidInput(detail.clone()),
            InferenceError::CommunicationError(detail) => InferenceError::CommunicationError(
                detail.clone(),
            ),
            InferenceError::Timeout { seconds } => InferenceError::Timeout { seconds: *seconds },
            InferenceError::EngineUnavailable => InferenceError::EngineUnavailable,
        }
    }
}

impl InferenceError {
    /// Text of the error as shown to a user.
    pub open spec fn spec_message(&self, text: Seq<char>) -> bool {
        match self {
            InferenceError::InvalidInput(detail) => text == "Invalid input: "@ + detail@,
            InferenceError::CommunicationError(detail) => text
                == "Engine communication error: "@ + detail@,
            InferenceError::Timeout { seconds } => exists|digits: String|
                #[trigger] vstd::string::to_string_from_display_ensures::<u64>(seconds, digits)
                    && text == "Timeout after "@ + digits@ + "s"@,
            InferenceError::EngineUnavailable => text == "Engine not available"@,
        }
    }

    /// Renders the error as shown to a user.
    pub fn message(&self) -> (text: String)
        ensures
            self.spec_message(text@),
    {
        match self {
            InferenceError::InvalidInput(detail) => {
                "Invalid input: ".to_string().concat(detail.as_str())
            },
            InferenceError::CommunicationError(detail) => {
                "Engine communication error: ".to_string().concat(detail.as_str())
            },
            InferenceError::Timeout { seconds } => {
                let digits = seconds.to_string();
                "Timeout after ".to_string().concat(digits.as_str()).concat("s")
            },
            InferenceError::EngineUnavailable => "Engine not available".to_string(),
        }
    }
}

} // verus!
