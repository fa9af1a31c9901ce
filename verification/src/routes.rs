//! What the bot does with an incoming message: which kind of answer it gets, and the
//! steps of delivering a photo.
use vstd::prelude::*;
use vstd::string::*;
use crate::error::OpenAIError;
use crate::keyboards::{
    extract_command_from_label, keyboard_layout, label_command, labels_of, Command, LabelPattern,
};
use crate::text::concat_str;

verus! {

/// The command that opens the bot and shows its keyboard.
pub const START_COMMAND: &'static str = "/start";

/// The greeting sent, with the keyboard, in answer to `/start`.
pub const WELCOME_TEXT: &'static str = "Hi! I am a bot that can send photos on various themes: dogs, cats, vehicles, underwater scenes, space, nature, and more. Please choose an option from the keyboard below or type your own command starting with /. To refresh the page, enter /start.";

/// Sent when a chat turn produced no answer.
pub const CHAT_FAILURE_TEXT: &'static str = "Failed to get a response from OpenAI.";

/// Sent when the photo service has no photo for the query.
pub const NO_PHOTOS_TEXT: &'static str = "Sorry, no photos found.";

/// Sent when every request of a photo search failed.
pub const SEARCH_FAILED_TEXT: &'static str = "Failed to get a photo after 5 attempts. Please try again later.";

/// Sent when the photo could not be downloaded.
pub const PHOTO_UNREACHABLE_TEXT: &'static str = "Failed to access the photo URL.";

/// Sent, as a reply to the message, before a photo is shrunk and sent again.
pub const DELAY_NOTICE_TEXT: &'static str = "Your request will require a bit more time. We apologize for any inconvenience this may cause.";

/// The largest width and height, in pixels, of a photo that is sent as a file.
pub const MAX_PHOTO_SIDE: u32 = 2560;

/// How the bot answers a message.
#[derive(Debug, PartialEq, Eq)]
pub enum Route {
    /// The message has no text: no answer.
    Ignore,
    /// `/start`: the greeting and the keyboard.
    Start,
    /// A chat turn with this prompt.
    Chat { prompt: String },
    /// A photo search for `query`; `text` is the message, for the captions.
    Photo { query: String, text: String },
}

/// The query of the first command labelled `text`, or the empty text where no command
/// has that label.
pub open spec fn find_action(commands: Seq<Command>, text: Seq<char>) -> Seq<char>
    decreases commands.len(),
{
    if commands.len() == 0 {
        Seq::empty()
    } else if commands[0].name@ == text {
        commands[0].action@
    } else {
        find_action(commands.drop_first(), text)
    }
}

/// The search query of a message: for text that starts with `/`, the command it names;
/// otherwise the query of the command whose label it is, if any.
pub open spec fn message_query(pattern: Seq<char>, text: Seq<char>, commands: Seq<Command>) -> Seq<
    char,
> {
    if text.len() > 0 && text[0] == '/' {
        label_command(pattern, text)
    } else {
        find_action(commands, text)
    }
}

/// The query of the first command labelled `text`.
fn command_query(commands: &Vec<Command>, text: &str) -> (q: String)
    ensures
        q@ == find_action(commands@, text@),
{
    let wanted = String::from_str(text);
    let mut i: usize = 0;
    assert(commands@.skip(0) =~= commands@);
    while i < commands.len()
        invariant
            i <= commands@.len(),
            wanted@ == text@,
            find_action(commands@, text@) == find_action(commands@.skip(i as int), text@),
        decreases commands@.len() - i,
    {
        assert(commands@.skip(i as int).drop_first() =~= commands@.skip(i + 1));
        if commands[i].name == wanted {
            return commands[i].action.clone();
        }
        i += 1;
    }
    String::new()
}

/// Decides how to answer a message, given the label pattern and the command table.
pub fn route_message(pattern: &LabelPattern, text: Option<&str>, commands: &Vec<Command>) -> (r:
    Route)
    ensures
        match text {
            None => r is Ignore,
            Some(t) => if t@ == "/start"@ {
                r is Start
            } else if message_query(pattern.source(), t@, commands@).len() == 0 {
                r matches Route::Chat { prompt } && prompt@ == t@
            } else {
                r matches Route::Photo { query, text } && query@ == message_query(
                    pattern.source(),
                    t@,
                    commands@,
                ) && text@ == t@
            },
        },
        text matches Some(t) ==> (t@ != "/start"@ && !(t@.len() > 0 && t@[0] == '/')
            && (forall|i: int| 0 <= i < commands@.len() ==> commands@[i].name@ != t@)
            ==> (r matches Route::Chat { prompt } && prompt@ == t@)),
{
    proof {
        if let Some(t) = text {
            law_unknown_text_asks_for_nothing(pattern.source(), t@, commands@);
        }
    }
    match text {
        None => Route::Ignore,
        Some(t) => {
            let typed = String::from_str(t);
            let start = String::from_str(START_COMMAND);
            if typed == start {
                return Route::Start;
            }
            let query = if t.unicode_len() > 0 && t.get_char(0) == '/' {
                extract_command_from_label(pattern, t)
            } else {
                command_query(commands, t)
            };
            if query.unicode_len() == 0 {
                Route::Chat { prompt: typed }
            } else {
                Route::Photo { query, text: typed }
            }
        },
    }
}

/// The message that answers a chat turn: the answer, or `CHAT_FAILURE_TEXT`.
pub fn chat_reply(result: Result<String, OpenAIError>) -> (s: String)
    ensures
        s@ == (match result {
            Ok(a) => a@,
            Err(_) => "Failed to get a response from OpenAI."@,
        }),
{
    match result {
        Ok(a) => a,
        Err(_) => String::from_str(CHAT_FAILURE_TEXT),
    }
}

/// The caption of a photo sent for the message `text`.
pub fn photo_caption(text: &str) -> (c: String)
    ensures
        c@ == "Here is "@ + text@ + " photo for you!"@,
{
    let head = concat_str("Here is ", text);
    concat_str(head.as_str(), " photo for you!")
}

/// The caption of a photo sent again, shrunk, for the message `text`.
pub fn delayed_caption(text: &str) -> (c: String)
    ensures
        c@ == "Here is "@ + text@ + " delayed photo. We apologize for the inconvenience."@,
{
    let head = concat_str("Here is ", text);
    concat_str(head.as_str(), " delayed photo. We apologize for the inconvenience.")
}

/// Whether a photo of these dimensions must be shrunk before it can be sent as a file.
pub fn needs_downscale(width: u32, height: u32) -> (b: bool)
    ensures
        b == (width > MAX_PHOTO_SIDE || height > MAX_PHOTO_SIDE),
        b == (width > 2560 || height > 2560),
{
    width > MAX_PHOTO_SIDE || height > MAX_PHOTO_SIDE
}

} // verus!

verus! {

/// How a photo search ended.
#[derive(Debug, PartialEq, Eq)]
pub enum SearchOutcome {
    /// With the URL of a photo.
    Found(String),
    /// Without a photo.
    NotFound,
    /// With an error on every request.
    Failed,
}

/// How sending a photo by its URL went.
#[derive(Debug, PartialEq, Eq)]
pub enum SendOutcome {
    /// The photo was sent.
    Sent,
    /// The URL is not a valid URL; nothing was sent.
    BadUrl,
    /// The messenger refused the photo.
    Refused,
}

/// How downloading a photo went.
#[derive(Debug, PartialEq, Eq)]
pub enum FetchOutcome {
    /// The request failed.
    Unreachable,
    /// The server answered with a status other than success.
    Refused,
    /// The server answered with success.
    Fetched,
}

/// What happened since the last step of a photo delivery.
#[derive(Debug, PartialEq, Eq)]
pub enum DeliveryEvent {
    Searched(SearchOutcome),
    PhotoSent(SendOutcome),
    Fetched(FetchOutcome),
    /// The downloaded photo was decoded; these are its dimensions in pixels.
    Decoded { width: u32, height: u32 },
}

/// What a photo delivery does next.
#[derive(Debug, PartialEq, Eq)]
pub enum DeliveryAction {
    /// Show that a photo is coming, and send the photo at `url` with `caption`.
    SendPhoto { url: String, caption: String },
    /// Send this text to the chat.
    SendText(String),
    /// Download the photo at `url`.
    Fetch { url: String },
    /// Answer the message with `notice`, then read and decode the downloaded photo.
    NoticeAndDecode { notice: String },
    /// Shrink the decoded photo so that no side exceeds `max_side` pixels, and send it
    /// as a file with `caption`, in answer to the message.
    SendShrunk { max_side: u32, caption: String },
    /// Nothing more to do.
    Finish,
}

/// Where a photo delivery stands.
#[derive(Debug, PartialEq, Eq)]
pub enum DeliveryStage {
    Searching,
    Sending { url: String },
    Fetching,
    Decoding,
    Done,
}

/// How many steps a delivery at `stage` can still take.
pub open spec fn stage_rank(stage: DeliveryStage) -> nat {
    match stage {
        DeliveryStage::Searching => 4,
        DeliveryStage::Sending { .. } => 3,
        DeliveryStage::Fetching => 2,
        DeliveryStage::Decoding => 1,
        DeliveryStage::Done => 0,
    }
}

/// The delivery of a photo in answer to one message.
pub struct PhotoDelivery {
    text: String,
    stage: DeliveryStage,
}

impl PhotoDelivery {
    /// The text of the message being answered.
    pub closed spec fn message_text(&self) -> Seq<char> {
        self.text@
    }

    /// Where the delivery stands.
    pub closed spec fn current_stage(&self) -> DeliveryStage {
        self.stage
    }

    /// A delivery for the message `text`, waiting for its photo search.
    pub fn new(text: String) -> (d: PhotoDelivery)
        ensures
            d.message_text() == text@,
            d.current_stage() is Searching,
    {
        PhotoDelivery { text, stage: DeliveryStage::Searching }
    }

    /// Decides the next action of the delivery from what just happened.
    pub fn step(&mut self, event: DeliveryEvent) -> (a: DeliveryAction)
        ensures
            final(self).message_text() == old(self).message_text(),
            stage_rank(final(self).current_stage()) < stage_rank(old(self).current_stage())
                || final(self).current_stage() is Done,
            a is Finish ==> final(self).current_stage() is Done,
            match (old(self).current_stage(), event) {
                (DeliveryStage::Searching, DeliveryEvent::Searched(SearchOutcome::Found(u))) => {
                    &&& a matches DeliveryAction::SendPhoto { url, caption }
                    &&& url == u
                    &&& caption@ == "Here is "@ + old(self).message_text() + " photo for you!"@
                    &&& final(self).current_stage() == DeliveryStage::Sending { url: u }
                },
                (DeliveryStage::Searching, DeliveryEvent::Searched(SearchOutcome::NotFound)) => {
                    &&& a matches DeliveryAction::SendText(t)
                    &&& t@ == "Sorry, no photos found."@
                    &&& final(self).current_stage() is Done
                },
                (DeliveryStage::Searching, DeliveryEvent::Searched(SearchOutcome::Failed)) => {
                    &&& a matches DeliveryAction::SendText(t)
                    &&& t@ == "Failed to get a photo after 5 attempts. Please try again later."@
                    &&& final(self).current_stage() is Done
                },
                (DeliveryStage::Sending { url }, DeliveryEvent::PhotoSent(SendOutcome::Refused)) => {
                    &&& a matches DeliveryAction::Fetch { url: f }
                    &&& f == url
                    &&& final(self).current_stage() is Fetching
                },
                (DeliveryStage::Fetching, DeliveryEvent::Fetched(FetchOutcome::Fetched)) => {
                    &&& a matches DeliveryAction::NoticeAndDecode { notice }
                    &&& notice@ == "Your request will require a bit more time. We apologize for any inconvenience this may cause."@
                    &&& final(self).current_stage() is Decoding
                },
                (DeliveryStage::Fetching, DeliveryEvent::Fetched(_)) => {
                    &&& a matches DeliveryAction::SendText(t)
                    &&& t@ == "Failed to access the photo URL."@
                    &&& final(self).current_stage() is Done
                },
                (DeliveryStage::Decoding, DeliveryEvent::Decoded { width, height }) => {
                    &&& final(self).current_stage() is Done
                    &&& if width > 2560 || height > 2560 {
                        &&& a matches DeliveryAction::SendShrunk { max_side, caption }
                        &&& max_side == 2560
                        &&& caption@ == "Here is "@ + old(self).message_text()
                            + " delayed photo. We apologize for the inconvenience."@
                    } else {
                        a is Finish
                    }
                },
                _ => a is Finish,
            },
    {
        let mut stage = DeliveryStage::Done;
        std::mem::swap(&mut stage, &mut self.stage);
        match (stage, event) {
            (DeliveryStage::Searching, DeliveryEvent::Searched(SearchOutcome::Found(u))) => {
                let caption = photo_caption(self.text.as_str());
                self.stage = DeliveryStage::Sending { url: u.clone() };
                DeliveryAction::SendPhoto { url: u, caption }
            },
            (DeliveryStage::Searching, DeliveryEvent::Searched(SearchOutcome::NotFound)) => {
                DeliveryAction::SendText(String::from_str(NO_PHOTOS_TEXT))
            },
            (DeliveryStage::Searching, DeliveryEvent::Searched(SearchOutcome::Failed)) => {
                DeliveryAction::SendText(String::from_str(SEARCH_FAILED_TEXT))
            },
            (DeliveryStage::Sending { url }, DeliveryEvent::PhotoSent(SendOutcome::Refused)) => {
                self.stage = DeliveryStage::Fetching;
                DeliveryAction::Fetch { url }
            },
            (DeliveryStage::Fetching, DeliveryEvent::Fetched(FetchOutcome::Fetched)) => {
                self.stage = DeliveryStage::Decoding;
                DeliveryAction::NoticeAndDecode { notice: String::from_str(DELAY_NOTICE_TEXT) }
            },
            (DeliveryStage::Fetching, DeliveryEvent::Fetched(_)) => {
                DeliveryAction::SendText(String::from_str(PHOTO_UNREACHABLE_TEXT))
            },
            (DeliveryStage::Decoding, DeliveryEvent::Decoded { width, height }) => {
                if needs_downscale(width, height) {
                    DeliveryAction::SendShrunk {
                        max_side: MAX_PHOTO_SIDE,
                        caption: delayed_caption(self.text.as_str()),
                    }
                } else {
                    DeliveryAction::Finish
                }
            },
            _ => DeliveryAction::Finish,
        }
    }
}

} // verus!

verus! {

/// Where some command is labelled `text`, the query of the first such command.
proof fn lemma_find_action_first(commands: Seq<Command>, text: Seq<char>, i: int)
    requires
        0 <= i < commands.len(),
        commands[i].name@ == text,
    ensures
        exists|k: int|
            0 <= k <= i && #[trigger] commands[k].name@ == text && (forall|j: int|
                0 <= j < k ==> commands[j].name@ != text) && find_action(commands, text)
                == commands[k].action@,
    decreases i,
{
    if commands[0].name@ == text {
        assert(commands[0].name@ == text);
    } else {
        let rest = commands.drop_first();
        lemma_find_action_first(rest, text, i - 1);
        let k = choose|k: int|
            0 <= k <= i - 1 && #[trigger] rest[k].name@ == text && (forall|j: int|
                0 <= j < k ==> rest[j].name@ != text) && find_action(rest, text) == rest[k].action@;
        assert(commands[k + 1].name@ == text);
        assert forall|j: int| 0 <= j < k + 1 implies commands[j].name@ != text by {
            if j > 0 {
                assert(commands[j] == rest[j - 1]);
            }
        }
    }
}

/// A button of the main keyboard sends its label, and a label that does not start with
/// `/` asks for the query of the first command with that label: the command the button
/// was made for, or an earlier one with the same label.
pub proof fn law_button_asks_for_its_command(
    pattern: Seq<char>,
    commands: Seq<Command>,
    r: int,
    c: int,
)
    requires
        0 <= r < keyboard_layout(labels_of(commands)).len(),
        0 <= c < keyboard_layout(labels_of(commands))[r].len(),
    ensures
        ({
            let label = keyboard_layout(labels_of(commands))[r][c];
            &&& label == commands[3 * r + c].name@
            &&& !(label.len() > 0 && label[0] == '/') ==> exists|k: int|
                0 <= k <= 3 * r + c && #[trigger] commands[k].name@ == label && (forall|j: int|
                    0 <= j < k ==> commands[j].name@ != label) && message_query(
                    pattern,
                    label,
                    commands,
                ) == commands[k].action@
        }),
{
    let labels = labels_of(commands);
    let n = labels.len();
    assert(3 * r + c < n) by (nonlinear_arith)
        requires
            0 <= r < (n + 2) / 3,
            0 <= c,
            3 * r + c < (if 3 * r + 3 <= n { 3 * r + 3 } else { n as int }),
    ;
    let label = keyboard_layout(labels)[r][c];
    assert(label == labels[3 * r + c]);
    lemma_find_action_first(commands, label, 3 * r + c);
}

} // verus!

verus! {

/// Text that is no command's label and does not start with `/` asks for no photo: its
/// query is empty, so it goes to the chat.
pub proof fn law_unknown_text_asks_for_nothing(
    pattern: Seq<char>,
    text: Seq<char>,
    commands: Seq<Command>,
)
    ensures
        (forall|i: int| 0 <= i < commands.len() ==> commands[i].name@ != text) && !(text.len() > 0
            && text[0] == '/') ==> message_query(pattern, text, commands).len() == 0,
    decreases commands.len(),
{
    if commands.len() > 0 {
        law_unknown_text_asks_for_nothing(pattern, text, commands.drop_first());
        if forall|i: int| 0 <= i < commands.len() ==> commands[i].name@ != text {
            assert forall|i: int| 0 <= i < commands.drop_first().len() implies commands.drop_first()[i].name@ != text by {
                assert(commands.drop_first()[i] == commands[i + 1]);
            }
            assert(commands[0].name@ != text);
        }
    }
}

} // verus!
