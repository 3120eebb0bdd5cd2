//! The completion client: the decisions around one request to the completion
//! endpoint. The request itself is sent by the caller, which hands the outcome back.
use crate::cache::{after_get, after_put, has_key, lookup, CodeCache, CACHE_SIZE};
use crate::limiter::{RateLimiter, REQUESTS_PER_SECOND};
use crate::model::{OAIRequest, OAIResponse};
use vstd::prelude::*;
use vstd::string::StringExecFns;

verus! {

/// The completion endpoint.
pub const ENDPOINT: &'static str = "https://api.openai.com/v1/engines/text-davinci-001/completions";

/// Seconds a request may take before it is abandoned.
pub const TIMEOUT_SECS: u64 = 10;

/// Bound on the tokens of one completion.
pub const MAX_TOKENS: u16 = 1000;

/// The instruction put before every prompt sent.
pub const PROMPT_PREFIX: &'static str = "Generate code for the given statement. ";

/// Why a completion could not be had.
#[derive(Debug, PartialEq, Eq)]
pub enum GenerateError {
    /// No credential was found at start-up.
    MissingCredential,
    /// The local limiter or the server refused the request.
    RateLimitExceeded,
    /// The request did not complete (connection, name lookup, timeout).
    TransportError(String),
    /// The response body could not be read as a completion response.
    DecodeError(String),
    /// The server answered with a status other than 200 or 429.
    UnexpectedStatus(u16),
    /// The response held no choice.
    EmptyChoices,
}

/// What to do for a prompt before any network traffic.
#[derive(Debug, PartialEq, Eq)]
pub enum Step {
    /// The completion was cached: it is the answer.
    Cached(String),
    /// Send this request, then hand its outcome to `OpenAI::finish_generation`.
    Send(OAIRequest),
}

/// What to do once the status of a response is known.
#[derive(Debug, PartialEq, Eq)]
pub enum StatusAction {
    /// Decode the body and hand it to `OpenAI::finish_generation`.
    ReadBody,
    /// The attempt failed with this error.
    Fail(GenerateError),
}

/// The text sent for `prompt`.
pub open spec fn wrapped_prompt(prompt: Seq<char>) -> Seq<char> {
    PROMPT_PREFIX@ + prompt
}

/// The request sent for `prompt`.
pub open spec fn request_spec(r: OAIRequest, prompt: Seq<char>) -> bool {
    r.prompt@ == wrapped_prompt(prompt) && r.max_tokens == MAX_TOKENS
}

/// What the client decides after the limiter's verdict `allowed`.
pub open spec fn admitted(r: Result<Step, GenerateError>, prompt: Seq<char>, allowed: bool) -> bool {
    if allowed {
        r is Ok && r->Ok_0 is Send && request_spec(r->Ok_0->Send_0, prompt)
    } else {
        r == Err::<Step, GenerateError>(GenerateError::RateLimitExceeded)
    }
}

/// The client's credential, its cache and its rate limiter.
pub struct OpenAI {
    pub api_key: String,
    pub cache: CodeCache,
    pub rate_limiter: RateLimiter,
}

impl OpenAI {
    pub open spec fn wf(&self) -> bool {
        self.cache.wf()
    }

    /// A client just made for credential `key`: empty cache, limiter at the steady rate.
    pub open spec fn fresh(c: OpenAI, key: Seq<char>) -> bool {
        &&& c.wf()
        &&& c.api_key@ == key
        &&& c.cache@ == Seq::<(Seq<char>, Seq<char>)>::empty()
        &&& c.rate_limiter.rate() == REQUESTS_PER_SECOND
    }

    /// A client for the credential `api_key`, as looked up at start-up; without
    /// one it fails with `MissingCredential`.
    pub fn new(api_key: Option<String>) -> (r: Result<Self, GenerateError>)
        ensures
            api_key is None <==> r is Err,
            r is Err ==> r->Err_0 == GenerateError::MissingCredential,
            r is Ok ==> Self::fresh(r->Ok_0, api_key->Some_0@),
    {
        match api_key {
            None => Err(GenerateError::MissingCredential),
            Some(api_key) => {
                let cache = CodeCache::new();
                let rate_limiter = RateLimiter::per_second(REQUESTS_PER_SECOND);
                Ok(OpenAI { api_key, cache, rate_limiter })
            },
        }
    }

    /// The value of the `Authorization` header: the credential as a bearer token.
    pub fn authorization(&self) -> (r: String)
        ensures
            r@ == "Bearer "@ + self.api_key@,
    {
        String::from_str("Bearer ").concat(self.api_key.as_str())
    }

    /// The request sent for `prompt`: the prompt after the instruction prefix, and
    /// the token bound.
    pub fn request_for(prompt: &str) -> (r: OAIRequest)
        ensures
            request_spec(r, prompt@),
    {
        OAIRequest { prompt: String::from_str(PROMPT_PREFIX).concat(prompt), max_tokens: MAX_TOKENS }
    }

    /// The decision once the limiter has answered `allowed` for `prompt`.
    pub fn after_rate_check(prompt: &str, allowed: bool) -> (r: Result<Step, GenerateError>)
        ensures
            admitted(r, prompt@, allowed),
    {
        if allowed {
            Ok(Step::Send(Self::request_for(prompt)))
        } else {
            Err(GenerateError::RateLimitExceeded)
        }
    }

    /// The first step for `prompt`. A cached completion is the answer, and then
    /// neither the limiter nor the network is consulted. Otherwise the limiter
    /// decides between a refusal and the request to send; the cache is left as it was.
    pub fn start_generation(&mut self, prompt: &str) -> (r: Result<Step, GenerateError>)
        requires
            old(self).wf(),
        ensures
            final(self).wf(),
            final(self).api_key == old(self).api_key,
            final(self).rate_limiter.rate() == old(self).rate_limiter.rate(),
            has_key(old(self).cache@, prompt@) ==> {
                &&& r is Ok && r->Ok_0 is Cached
                &&& lookup(old(self).cache@, prompt@) == Some(r->Ok_0->Cached_0@)
                &&& final(self).cache@ == after_get(old(self).cache@, prompt@)
                &&& final(self).rate_limiter == old(self).rate_limiter
            },
            !has_key(old(self).cache@, prompt@) ==> {
                &&& final(self).cache@ == old(self).cache@
                &&& admitted(r, prompt@, true) || admitted(r, prompt@, false)
            },
    {
        match self.cache.get(prompt) {
            Some(code) => Ok(Step::Cached(code)),
            None => {
                let allowed = self.rate_limiter.check();
                Self::after_rate_check(prompt, allowed)
            },
        }
    }

    /// What a response status means: 200 has a body to read, 429 is a refusal by
    /// the server, any other status is unexpected.
    pub fn classify_status(status: u16) -> (r: StatusAction)
        ensures
            status == 200 ==> r == StatusAction::ReadBody,
            status == 429 ==> r == StatusAction::Fail(GenerateError::RateLimitExceeded),
            status != 200 && status != 429 ==> r == StatusAction::Fail(
                GenerateError::UnexpectedStatus(status),
            ),
    {
        if status == 200 {
            StatusAction::ReadBody
        } else if status == 429 {
            StatusAction::Fail(GenerateError::RateLimitExceeded)
        } else {
            StatusAction::Fail(GenerateError::UnexpectedStatus(status))
        }
    }

    /// The last step for `prompt`, given the decoded body of a 200 response or why it
    /// could not be decoded. The text of the first choice is cached and returned; an
    /// undecodable body or an empty choice list fails and leaves the cache as it was.
    pub fn finish_generation(&mut self, prompt: &str, body: Result<OAIResponse, String>) -> (r:
        Result<String, GenerateError>)
        requires
            old(self).wf(),
        ensures
            final(self).wf(),
            final(self).api_key == old(self).api_key,
            final(self).rate_limiter == old(self).rate_limiter,
            body is Err ==> {
                &&& r == Err::<String, GenerateError>(GenerateError::DecodeError(body->Err_0))
                &&& final(self).cache@ == old(self).cache@
            },
            body is Ok && body->Ok_0.choices@.len() == 0 ==> {
                &&& r == Err::<String, GenerateError>(GenerateError::EmptyChoices)
                &&& final(self).cache@ == old(self).cache@
            },
            body is Ok && body->Ok_0.choices@.len() > 0 ==> {
                &&& r is Ok
                &&& r->Ok_0@ == body->Ok_0.choices@[0].text@
                &&& final(self).cache@ == after_put(
                    old(self).cache@,
                    CACHE_SIZE as nat,
                    prompt@,
                    r->Ok_0@,
                )
            },
    {
        match body {
            Err(message) => Err(GenerateError::DecodeError(message)),
            Ok(response) => {
                if response.choices.len() == 0 {
                    Err(GenerateError::EmptyChoices)
                } else {
                    let text = response.choices[0].text.clone();
                    self.cache.put(String::from_str(prompt), text.clone());
                    Ok(text)
                }
            },
        }
    }
}

} // verus!
