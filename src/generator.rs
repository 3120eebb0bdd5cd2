//! A generator of code in one language: the completion client and the way its
//! results are shown.
use crate::openai::{GenerateError, OpenAI};
use vstd::prelude::*;

verus! {

/// A target language: its name as shown to the user, and how its code is laid out.
pub trait CodeGenerator {
    fn name() -> &'static str;

    fn format(&self, code: &str) -> String;
}

pub struct Generator<T: CodeGenerator> {
    pub openai: OpenAI,
    pub code_generator: T,
}

impl<T: CodeGenerator> Generator<T> {
    /// A generator with a fresh client for the credential `api_key`; without one
    /// it fails with `MissingCredential`.
    pub fn new(code_generator: T, api_key: Option<String>) -> (r: Result<Self, GenerateError>)
        ensures
            api_key is None <==> r is Err,
            r is Err ==> r->Err_0 == GenerateError::MissingCredential,
            r is Ok ==> OpenAI::fresh(r->Ok_0.openai, api_key->Some_0@),
    {
        match OpenAI::new(api_key) {
            Ok(openai) => Ok(Generator { openai, code_generator }),
            Err(e) => Err(e),
        }
    }

    /// The code of a completion, laid out for the target language.
    pub fn present(&self, code: &str) -> String {
        self.code_generator.format(code)
    }
}

} // verus!
