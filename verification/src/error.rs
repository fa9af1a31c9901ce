//! The error that a chat turn ends with.
use vstd::prelude::*;
use crate::text::concat_str;

verus! {

/// A chat turn that produced no answer, with the reason.
#[derive(Debug, Clone, PartialEq, Eq)]
pub struct OpenAIError {
    pub message: String,
}

impl OpenAIError {
    /// How the error reads when shown: `OpenAIError: ` and the reason.
    pub fn display_text(&self) -> (s: String)
        ensures
            s@ == "OpenAIError: "@ + self.message@,
    {
        concat_str("OpenAIError: ", self.message.as_str())
    }
}

} // verus!
