//! Messages exchanged with the chat-completion service.
use vstd::prelude::*;

verus! {

/// One message of a conversation: who speaks and what is said.
#[derive(Debug, Clone, PartialEq, Eq)]
pub struct Message {
    pub role: String,
    pub content: String,
}

/// A chat-completion request: the model and the whole conversation so far.
#[derive(Debug, Clone, PartialEq, Eq)]
pub struct OpenAIRequest {
    pub model: String,
    pub messages: Vec<Message>,
}

/// The text of one proposed answer.
#[derive(Debug, Clone, PartialEq, Eq)]
pub struct MessageContent {
    pub content: String,
}

/// One proposed answer of a completion.
#[derive(Debug, Clone, PartialEq, Eq)]
pub struct Choice {
    pub message: MessageContent,
}

/// A successful completion: the proposed answers, best first.
#[derive(Debug, Clone, PartialEq, Eq)]
pub struct OpenAIResponse {
    pub choices: Vec<Choice>,
}

/// What the service says went wrong.
#[derive(Debug, Clone, PartialEq, Eq)]
pub struct ErrorDetail {
    pub message: String,
}

/// A completion the service refused.
#[derive(Debug, Clone, PartialEq, Eq)]
pub struct OpenAIErrorResponse {
    pub error: ErrorDetail,
}

impl Message {
    /// The role and content of the message.
    pub open spec fn view_pair(self) -> (Seq<char>, Seq<char>) {
        (self.role@, self.content@)
    }
}

/// The roles and contents of a conversation, in order.
pub open spec fn conversation(messages: Seq<Message>) -> Seq<(Seq<char>, Seq<char>)> {
    messages.map_values(|m: Message| m.view_pair())
}

} // verus!
