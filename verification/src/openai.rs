//! The chat side of the bot: the conversation it keeps and what one turn does to it.
use vstd::prelude::*;
use crate::error::OpenAIError;
use vstd::string::*;
use crate::text::concat_str;
use crate::types::{conversation, Message, OpenAIErrorResponse, OpenAIRequest, OpenAIResponse};

verus! {

/// The instruction that opens every conversation.
pub const SYSTEM_PROMPT: &'static str = "You are a helpful assistant.";

/// The answer given when the service proposes none.
pub const NO_ANSWER: &'static str = "I'm sorry, I didn't understand that.";

/// The role and content of the message that opens every conversation.
pub open spec fn system_message() -> (Seq<char>, Seq<char>) {
    ("system"@, "You are a helpful assistant."@)
}

/// What came back for a chat request.
#[derive(Debug, PartialEq, Eq)]
pub enum ReplyOutcome {
    /// The request could not be sent; the transport's description of why.
    RequestFailed(String),
    /// The answer's body could not be read; the description of why.
    ReadFailed(String),
    /// The body, read both ways: as a refusal of the service, if it is one, and as a
    /// completion, or the description of why it is none.
    Body { refusal: Option<OpenAIErrorResponse>, completion: Result<OpenAIResponse, String> },
}

/// The text of the first proposed answer, or `NO_ANSWER` where there is none.
pub open spec fn answer_of(r: OpenAIResponse) -> Seq<char> {
    if r.choices@.len() > 0 {
        r.choices@[0].message.content@
    } else {
        NO_ANSWER@
    }
}

/// What a turn ends with: the answer, or the reason there is none.
pub open spec fn turn_result(outcome: ReplyOutcome) -> Result<Seq<char>, Seq<char>> {
    match outcome {
        ReplyOutcome::RequestFailed(e) => Err("Request error: "@ + e@),
        ReplyOutcome::ReadFailed(e) => Err("Error reading response text: "@ + e@),
        ReplyOutcome::Body { refusal, completion } => match refusal {
            Some(r) => Err(r.error.message@),
            None => match completion {
                Ok(resp) => Ok(answer_of(resp)),
                Err(e) => Err("Error decoding response body: "@ + e@),
            },
        },
    }
}

/// The conversation after a turn: the prompt is always kept; the answer is kept only
/// where the turn produced one.
pub open spec fn history_after_turn(
    history: Seq<(Seq<char>, Seq<char>)>,
    prompt: Seq<char>,
    result: Result<Seq<char>, Seq<char>>,
) -> Seq<(Seq<char>, Seq<char>)> {
    let asked = history.push(("user"@, prompt));
    match result {
        Ok(answer) => asked.push(("assistant"@, answer)),
        Err(_) => asked,
    }
}

/// A copy of a conversation.
pub fn clone_messages(messages: &Vec<Message>) -> (c: Vec<Message>)
    ensures
        conversation(c@) == conversation(messages@),
{
    let mut c: Vec<Message> = Vec::new();
    let mut i: usize = 0;
    while i < messages.len()
        invariant
            i <= messages@.len(),
            conversation(c@) == conversation(messages@.take(i as int)),
        decreases messages@.len() - i,
    {
        let m = &messages[i];
        let ghost before = c@;
        c.push(Message { role: m.role.clone(), content: m.content.clone() });
        assert(conversation(c@) =~= conversation(before).push(m.view_pair()));
        assert(messages@.take(i + 1) =~= messages@.take(i as int).push(*m));
        assert(conversation(messages@.take(i + 1)) =~= conversation(messages@.take(i as int)).push(
            m.view_pair(),
        ));
        i += 1;
    }
    assert(messages@.take(messages@.len() as int) =~= messages@);
    c
}

/// The state of the chat: the service key, the model, and the conversation so far.
pub struct OpenAIRecognizer {
    api_key: String,
    model: String,
    msg_history: Vec<Message>,
}

impl OpenAIRecognizer {
    /// The service key.
    pub closed spec fn key(&self) -> Seq<char> {
        self.api_key@
    }

    /// The model asked for.
    pub closed spec fn model_name(&self) -> Seq<char> {
        self.model@
    }

    /// The conversation so far, message by message.
    pub closed spec fn history(&self) -> Seq<(Seq<char>, Seq<char>)> {
        conversation(self.msg_history@)
    }

    /// A chat with the given key and model, whose conversation holds only the
    /// system instruction.
    pub fn new(api_key: String, model: String) -> (r: OpenAIRecognizer)
        ensures
            r.key() == api_key@,
            r.model_name() == model@,
            r.history() == seq![system_message()],
    {
        let mut msg_history: Vec<Message> = Vec::new();
        msg_history.push(
            Message { role: String::from_str("system"), content: String::from_str(SYSTEM_PROMPT) },
        );
        let r = OpenAIRecognizer { api_key, model, msg_history };
        assert(r.history() =~= seq![system_message()]);
        r
    }

    /// The value of the `Authorization` header of chat requests.
    pub fn authorization(&self) -> (h: String)
        ensures
            h@ == "Bearer "@ + self.key(),
    {
        concat_str("Bearer ", self.api_key.as_str())
    }

    /// Starts a turn: adds the user's prompt to the conversation and gives the request
    /// that carries the whole conversation.
    pub fn push_prompt(&mut self, prompt: &str) -> (req: OpenAIRequest)
        ensures
            final(self).key() == old(self).key(),
            final(self).model_name() == old(self).model_name(),
            final(self).history() == old(self).history().push(("user"@, prompt@)),
            req.model@ == old(self).model_name(),
            conversation(req.messages@) == final(self).history(),
            req.messages@.len() == old(self).history().len() + 1,
            req.messages@.last().role@ == "user"@,
            req.messages@.last().content@ == prompt@,
            forall|i: int| 0 <= i < old(self).history().len() ==> (#[trigger] req.messages@[i]).role@
                == old(self).history()[i].0 && req.messages@[i].content@ == old(self).history()[i].1,
    {
        let ghost before = self.msg_history@;
        let m = Message { role: String::from_str("user"), content: String::from_str(prompt) };
        self.msg_history.push(m);
        assert(conversation(self.msg_history@) =~= conversation(before).push(("user"@, prompt@)));
        let req = OpenAIRequest { model: self.model.clone(), messages: clone_messages(&self.msg_history) };
        proof {
            let ms = req.messages@;
            let h = conversation(ms);
            assert(h == old(self).history().push(("user"@, prompt@)));
            assert(h.len() == ms.len());
            assert(h[ms.len() - 1] == ms[ms.len() - 1].view_pair());
            assert forall|i: int| 0 <= i < old(self).history().len() implies (#[trigger] ms[i]).role@
                == old(self).history()[i].0 && ms[i].content@ == old(self).history()[i].1 by {
                assert(h[i] == ms[i].view_pair());
            }
        }
        req
    }

    /// Ends a turn with what came back: a refusal, a failure to send, read or decode
    /// becomes the error; else the first proposed answer, or `NO_ANSWER`, is added to the
    /// conversation and returned.
    pub fn accept_reply(&mut self, outcome: ReplyOutcome) -> (r: Result<String, OpenAIError>)
        ensures
            final(self).key() == old(self).key(),
            final(self).model_name() == old(self).model_name(),
            match turn_result(outcome) {
                Ok(answer) => r matches Ok(a) && a@ == answer && final(self).history()
                    == old(self).history().push(("assistant"@, answer)),
                Err(reason) => r matches Err(e) && e.message@ == reason && final(self).history()
                    == old(self).history(),
            },
            outcome matches ReplyOutcome::Body { refusal: None, completion: Ok(resp) } ==> (
            resp.choices@.len() > 0 ==> (r matches Ok(a) && a@
                == resp.choices@[0].message.content@)),
            outcome matches ReplyOutcome::Body { refusal: None, completion: Ok(resp) } ==> (
            resp.choices@.len() == 0 ==> (r matches Ok(a) && a@
                == "I'm sorry, I didn't understand that."@)),
            r matches Ok(a) ==> final(self).history() == old(self).history().push(
                ("assistant"@, a@),
            ),
            r is Err ==> final(self).history() == old(self).history(),
            outcome matches ReplyOutcome::RequestFailed(x) ==> (r matches Err(e) && e.message@
                == "Request error: "@ + x@),
            outcome matches ReplyOutcome::ReadFailed(x) ==> (r matches Err(e) && e.message@
                == "Error reading response text: "@ + x@),
            outcome matches ReplyOutcome::Body { refusal: Some(rf), completion: _ } ==> (
            r matches Err(e) && e.message@ == rf.error.message@),
            outcome matches ReplyOutcome::Body { refusal: None, completion: Err(x) } ==> (
            r matches Err(e) && e.message@ == "Error decoding response body: "@ + x@),
    {
        match outcome {
            ReplyOutcome::RequestFailed(e) => Err(
                OpenAIError { message: concat_str("Request error: ", e.as_str()) },
            ),
            ReplyOutcome::ReadFailed(e) => Err(
                OpenAIError { message: concat_str("Error reading response text: ", e.as_str()) },
            ),
            ReplyOutcome::Body { refusal, completion } => match refusal {
                Some(r) => Err(OpenAIError { message: r.error.message }),
                None => match completion {
                    Err(e) => Err(
                        OpenAIError {
                            message: concat_str("Error decoding response body: ", e.as_str()),
                        },
                    ),
                    Ok(resp) => {
                        let answer = if resp.choices.len() > 0 {
                            resp.choices[0].message.content.clone()
                        } else {
                            String::from_str(NO_ANSWER)
                        };
                        let ghost before = self.msg_history@;
                        self.msg_history.push(
                            Message { role: String::from_str("assistant"), content: answer.clone() },
                        );
                        assert(conversation(self.msg_history@) =~= conversation(before).push(
                            ("assistant"@, answer@),
                        ));
                        Ok(answer)
                    },
                },
            },
        }
    }
}

} // verus!

verus! {

/// A chat turn (`push_prompt`, then `accept_reply`) only ever extends the conversation:
/// the system instruction stays first, the old conversation stays as it was, the prompt
/// follows it, and the answer, where the turn produced one, comes right after the prompt.
pub proof fn law_turn_extends_conversation(
    history: Seq<(Seq<char>, Seq<char>)>,
    prompt: Seq<char>,
    outcome: ReplyOutcome,
)
    requires
        history.len() > 0,
        history[0] == system_message(),
    ensures
        ({
            let after = history_after_turn(history, prompt, turn_result(outcome));
            &&& after[0] == system_message()
            &&& after.take(history.len() as int) == history
            &&& after[history.len() as int] == ("user"@, prompt)
            &&& after.len() == history.len() + (if turn_result(outcome) is Ok {
                2nat
            } else {
                1nat
            })
            &&& turn_result(outcome) matches Ok(answer) ==> after.last() == ("assistant"@, answer)
        }),
{
    let after = history_after_turn(history, prompt, turn_result(outcome));
    assert(after.take(history.len() as int) =~= history);
}

} // verus!

verus! {

/// The conversation after a run of turns from `start`: each turn is a prompt and what it
/// ended with, in order.
pub open spec fn history_after_turns(
    start: Seq<(Seq<char>, Seq<char>)>,
    turns: Seq<(Seq<char>, Result<Seq<char>, Seq<char>>)>,
) -> Seq<(Seq<char>, Seq<char>)>
    decreases turns.len(),
{
    if turns.len() == 0 {
        start
    } else {
        history_after_turn(
            history_after_turns(start, turns.drop_last()),
            turns.last().0,
            turns.last().1,
        )
    }
}

/// How many of the turns produced an answer.
pub open spec fn answered_turns(turns: Seq<(Seq<char>, Result<Seq<char>, Seq<char>>)>) -> nat
    decreases turns.len(),
{
    if turns.len() == 0 {
        0
    } else {
        answered_turns(turns.drop_last()) + if turns.last().1 is Ok {
            1nat
        } else {
            0nat
        }
    }
}

/// A conversation that `new` opened and any run of turns extended: the system
/// instruction stays first; it holds one message more than twice the answered turns plus
/// the failed ones; every later message is the user's or the assistant's, and every
/// answer comes right after a prompt; a turn never removes a message.
pub proof fn law_conversation_shape(turns: Seq<(Seq<char>, Result<Seq<char>, Seq<char>>)>)
    ensures
        ({
            let h = history_after_turns(seq![system_message()], turns);
            &&& h[0] == system_message()
            &&& h.len() == 1 + 2 * answered_turns(turns) + (turns.len() - answered_turns(turns))
            &&& answered_turns(turns) <= turns.len()
            &&& forall|i: int| 1 <= i < h.len() ==> (#[trigger] h[i]).0 == "user"@ || h[i].0 == "assistant"@
            &&& forall|i: int| 1 <= i < h.len() && (#[trigger] h[i]).0 == "assistant"@ ==> h[i - 1].0 == "user"@
            &&& turns.len() > 0 ==> h.take(history_after_turns(seq![system_message()], turns.drop_last()).len() as int)
                == history_after_turns(seq![system_message()], turns.drop_last())
        }),
    decreases turns.len(),
{
    reveal_strlit("user");
    reveal_strlit("assistant");
    reveal_strlit("system");
    assert("user"@ != "assistant"@) by {
        assert("user"@.len() != "assistant"@.len());
    }
    assert("system"@ != "assistant"@) by {
        assert("system"@.len() != "assistant"@.len());
    }
    let start = seq![system_message()];
    let h = history_after_turns(start, turns);
    if turns.len() > 0 {
        let prev = history_after_turns(start, turns.drop_last());
        law_conversation_shape(turns.drop_last());
        let prompt = turns.last().0;
        let result = turns.last().1;
        let asked = prev.push(("user"@, prompt));
        assert(h == history_after_turn(prev, prompt, result));
        assert forall|i: int| 1 <= i < h.len() implies (#[trigger] h[i]).0 == "user"@ || h[i].0
            == "assistant"@ by {
            if i < prev.len() {
                assert(h[i] == prev[i]);
            }
        }
        assert forall|i: int| 1 <= i < h.len() && (#[trigger] h[i]).0 == "assistant"@ implies h[i
            - 1].0 == "user"@ by {
            if i < prev.len() {
                assert(h[i] == prev[i]);
                assert(h[i - 1] == prev[i - 1]);
            } else if i == prev.len() {
                assert(h[i] == asked[i]);
            } else {
                assert(h[i - 1] == asked[i - 1]);
            }
        }
        assert(h.take(prev.len() as int) =~= prev);
        assert(h[0] == prev[0]);
    }
}

} // verus!

verus! {

/// The answer of a completion is the full content of its first proposed answer, unchanged;
/// only a completion with no proposed answer gets the apology.
pub proof fn law_answer_is_first_choice(resp: OpenAIResponse)
    ensures
        resp.choices@.len() > 0 ==> answer_of(resp) == resp.choices@[0].message.content@,
        resp.choices@.len() == 0 ==> answer_of(resp) == "I'm sorry, I didn't understand that."@,
        turn_result(ReplyOutcome::Body { refusal: None, completion: Ok(resp) }) == Ok::<
            Seq<char>,
            Seq<char>,
        >(answer_of(resp)),
{
}

} // verus!
