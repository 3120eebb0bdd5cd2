//! The request and response envelopes of the completion endpoint.
use vstd::prelude::*;

verus! {

/// The body of one completion request.
#[derive(Debug, PartialEq, Eq)]
pub struct OAIRequest {
    pub prompt: String,
    pub max_tokens: u16,
}

/// One candidate completion of a response.
#[derive(Debug, PartialEq, Eq)]
pub struct OAICompletion {
    pub text: String,
    pub index: u8,
    pub logprobs: Option<u8>,
    pub finish_reason: String,
}

/// A decoded response body; only `choices` is read.
#[derive(Debug, PartialEq, Eq)]
pub struct OAIResponse {
    pub id: Option<String>,
    pub object: Option<String>,
    pub created: Option<u64>,
    pub model: Option<String>,
    pub choices: Vec<OAICompletion>,
}

} // verus!
