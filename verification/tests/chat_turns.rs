use rust_openai_bot::error::OpenAIError;
use rust_openai_bot::openai::{OpenAIRecognizer, ReplyOutcome};
use rust_openai_bot::types::{
    Choice, ErrorDetail, Message, MessageContent, OpenAIErrorResponse, OpenAIResponse,
};

fn msg(role: &str, content: &str) -> Message {
    Message { role: role.to_string(), content: content.to_string() }
}

fn completion(answers: &[&str]) -> OpenAIResponse {
    OpenAIResponse {
        choices: answers
            .iter()
            .map(|a| Choice { message: MessageContent { content: a.to_string() } })
            .collect(),
    }
}

fn body(resp: OpenAIResponse) -> ReplyOutcome {
    ReplyOutcome::Body { refusal: None, completion: Ok(resp) }
}

#[test]
fn new_chat_starts_with_the_system_instruction() {
    let mut r = OpenAIRecognizer::new("k".to_string(), "gpt-3.5-turbo".to_string());
    let req = r.push_prompt("hi");
    assert_eq!(req.model, "gpt-3.5-turbo");
    assert_eq!(req.messages, vec![msg("system", "You are a helpful assistant."), msg("user", "hi")]);
}

#[test]
fn authorization_is_a_bearer_token() {
    let r = OpenAIRecognizer::new("sk-123".to_string(), "m".to_string());
    assert_eq!(r.authorization(), "Bearer sk-123");
}

#[test]
fn answered_turn_keeps_prompt_and_answer() {
    let mut r = OpenAIRecognizer::new("k".to_string(), "m".to_string());
    r.push_prompt("hello");
    assert_eq!(r.accept_reply(body(completion(&["Hi there", "Hey"]))), Ok("Hi there".to_string()));
    let req = r.push_prompt("again");
    assert_eq!(
        req.messages,
        vec![
            msg("system", "You are a helpful assistant."),
            msg("user", "hello"),
            msg("assistant", "Hi there"),
            msg("user", "again"),
        ]
    );
}

#[test]
fn completion_without_choices_answers_with_the_apology() {
    let mut r = OpenAIRecognizer::new("k".to_string(), "m".to_string());
    r.push_prompt("?");
    assert_eq!(
        r.accept_reply(body(completion(&[]))),
        Ok("I'm sorry, I didn't understand that.".to_string())
    );
}

#[test]
fn failed_turn_keeps_only_the_prompt() {
    let mut r = OpenAIRecognizer::new("k".to_string(), "m".to_string());
    r.push_prompt("one");
    let e = r.accept_reply(ReplyOutcome::RequestFailed("timed out".to_string()));
    assert_eq!(e, Err(OpenAIError { message: "Request error: timed out".to_string() }));
    let req = r.push_prompt("two");
    assert_eq!(
        req.messages,
        vec![msg("system", "You are a helpful assistant."), msg("user", "one"), msg("user", "two")]
    );
}

#[test]
fn every_failure_has_its_message() {
    let mut r = OpenAIRecognizer::new("k".to_string(), "m".to_string());
    r.push_prompt("p");
    assert_eq!(
        r.accept_reply(ReplyOutcome::ReadFailed("eof".to_string())),
        Err(OpenAIError { message: "Error reading response text: eof".to_string() })
    );
    assert_eq!(
        r.accept_reply(ReplyOutcome::Body { refusal: None, completion: Err("bad json".to_string()) }),
        Err(OpenAIError { message: "Error decoding response body: bad json".to_string() })
    );
}

#[test]
fn refusal_wins_over_a_decodable_completion() {
    let mut r = OpenAIRecognizer::new("k".to_string(), "m".to_string());
    r.push_prompt("p");
    let refusal = OpenAIErrorResponse { error: ErrorDetail { message: "quota exceeded".to_string() } };
    assert_eq!(
        r.accept_reply(ReplyOutcome::Body { refusal: Some(refusal), completion: Ok(completion(&["x"])) }),
        Err(OpenAIError { message: "quota exceeded".to_string() })
    );
}

#[test]
fn error_reads_with_its_prefix() {
    let e = OpenAIError { message: "Request error: x".to_string() };
    assert_eq!(e.display_text(), "OpenAIError: Request error: x");
}

#[test]
fn conversation_grows_by_two_per_answer_and_one_per_failure() {
    let mut r = OpenAIRecognizer::new("k".to_string(), "m".to_string());
    r.push_prompt("a");
    assert!(r.accept_reply(body(completion(&["A"]))).is_ok());
    r.push_prompt("b");
    assert!(r.accept_reply(ReplyOutcome::ReadFailed("x".to_string())).is_err());
    r.push_prompt("c");
    assert!(r.accept_reply(body(completion(&["C"]))).is_ok());
    let req = r.push_prompt("d");
    let history = &req.messages[..req.messages.len() - 1];
    assert_eq!(history.len(), 1 + 2 * 2 + 1);
    assert_eq!(history[0], msg("system", "You are a helpful assistant."));
    for i in 1..history.len() {
        assert!(history[i].role == "user" || history[i].role == "assistant");
        if history[i].role == "assistant" {
            assert_eq!(history[i - 1].role, "user");
        }
    }
}
