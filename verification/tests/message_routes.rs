use rust_openai_bot::error::OpenAIError;
use rust_openai_bot::keyboards::{Command, LabelPattern};
use rust_openai_bot::routes::{
    chat_reply, delayed_caption, needs_downscale, photo_caption, route_message, DeliveryAction,
    DeliveryEvent, FetchOutcome, PhotoDelivery, Route, SearchOutcome, SendOutcome,
};

fn commands() -> Vec<Command> {
    vec![
        Command { name: "🐶 Dogs".to_string(), action: "dogs".to_string(), error_msg: "e".to_string() },
        Command { name: "🚗 Fast Cars".to_string(), action: "fast_cars".to_string(), error_msg: "e".to_string() },
        Command { name: "🐶 Dogs".to_string(), action: "puppies".to_string(), error_msg: "e".to_string() },
    ]
}

fn route(text: Option<&str>) -> Route {
    let p = LabelPattern::emoji_prefix().unwrap();
    route_message(&p, text, &commands())
}

#[test]
fn message_without_text_is_ignored() {
    assert_eq!(route(None), Route::Ignore);
}

#[test]
fn start_command_opens_the_keyboard() {
    assert_eq!(route(Some("/start")), Route::Start);
    assert_ne!(route(Some("/start ")), Route::Start);
}

#[test]
fn button_label_searches_its_command() {
    assert_eq!(
        route(Some("🚗 Fast Cars")),
        Route::Photo { query: "fast_cars".to_string(), text: "🚗 Fast Cars".to_string() }
    );
    assert_eq!(
        route(Some("🐶 Dogs")),
        Route::Photo { query: "dogs".to_string(), text: "🐶 Dogs".to_string() }
    );
}

#[test]
fn slash_command_searches_its_name() {
    assert_eq!(
        route(Some("/Space")),
        Route::Photo { query: "/space".to_string(), text: "/Space".to_string() }
    );
}

#[test]
fn other_text_goes_to_the_chat() {
    assert_eq!(
        route(Some("How are you?")),
        Route::Chat { prompt: "How are you?".to_string() }
    );
    assert_eq!(route(Some("")), Route::Chat { prompt: String::new() });
}

#[test]
fn bare_slash_searches_for_itself() {
    assert_eq!(route(Some("/")), Route::Photo { query: "/".to_string(), text: "/".to_string() });
}

#[test]
fn chat_reply_is_the_answer_or_the_apology() {
    assert_eq!(chat_reply(Ok("42".to_string())), "42");
    assert_eq!(
        chat_reply(Err(OpenAIError { message: "x".to_string() })),
        "Failed to get a response from OpenAI."
    );
}

#[test]
fn captions_name_the_message() {
    assert_eq!(photo_caption("🐶 Dogs"), "Here is 🐶 Dogs photo for you!");
    assert_eq!(
        delayed_caption("cats"),
        "Here is cats delayed photo. We apologize for the inconvenience."
    );
}

#[test]
fn only_photos_over_2560_pixels_are_shrunk() {
    assert!(!needs_downscale(2560, 2560));
    assert!(needs_downscale(2561, 10));
    assert!(needs_downscale(10, 4000));
    assert!(!needs_downscale(0, 0));
}

#[test]
fn found_photo_is_sent_by_url() {
    let mut d = PhotoDelivery::new("🐶 Dogs".to_string());
    assert_eq!(
        d.step(DeliveryEvent::Searched(SearchOutcome::Found("https://p/1.jpg".to_string()))),
        DeliveryAction::SendPhoto {
            url: "https://p/1.jpg".to_string(),
            caption: "Here is 🐶 Dogs photo for you!".to_string(),
        }
    );
    assert_eq!(d.step(DeliveryEvent::PhotoSent(SendOutcome::Sent)), DeliveryAction::Finish);
    assert_eq!(d.step(DeliveryEvent::PhotoSent(SendOutcome::Refused)), DeliveryAction::Finish);
}

#[test]
fn search_failures_are_answered() {
    let mut d = PhotoDelivery::new("x".to_string());
    assert_eq!(
        d.step(DeliveryEvent::Searched(SearchOutcome::NotFound)),
        DeliveryAction::SendText("Sorry, no photos found.".to_string())
    );
    let mut d = PhotoDelivery::new("x".to_string());
    assert_eq!(
        d.step(DeliveryEvent::Searched(SearchOutcome::Failed)),
        DeliveryAction::SendText(
            "Failed to get a photo after 5 attempts. Please try again later.".to_string()
        )
    );
}

#[test]
fn refused_photo_is_downloaded_and_shrunk() {
    let mut d = PhotoDelivery::new("cats".to_string());
    d.step(DeliveryEvent::Searched(SearchOutcome::Found("u".to_string())));
    assert_eq!(
        d.step(DeliveryEvent::PhotoSent(SendOutcome::Refused)),
        DeliveryAction::Fetch { url: "u".to_string() }
    );
    assert_eq!(
        d.step(DeliveryEvent::Fetched(FetchOutcome::Fetched)),
        DeliveryAction::NoticeAndDecode {
            notice: "Your request will require a bit more time. We apologize for any inconvenience this may cause.".to_string(),
        }
    );
    assert_eq!(
        d.step(DeliveryEvent::Decoded { width: 6000, height: 4000 }),
        DeliveryAction::SendShrunk {
            max_side: 2560,
            caption: "Here is cats delayed photo. We apologize for the inconvenience.".to_string(),
        }
    );
    assert_eq!(d.step(DeliveryEvent::Decoded { width: 6000, height: 4000 }), DeliveryAction::Finish);
}

#[test]
fn small_downloaded_photo_is_not_sent_again() {
    let mut d = PhotoDelivery::new("cats".to_string());
    d.step(DeliveryEvent::Searched(SearchOutcome::Found("u".to_string())));
    d.step(DeliveryEvent::PhotoSent(SendOutcome::Refused));
    d.step(DeliveryEvent::Fetched(FetchOutcome::Fetched));
    assert_eq!(d.step(DeliveryEvent::Decoded { width: 800, height: 600 }), DeliveryAction::Finish);
}

#[test]
fn unreachable_photo_is_reported() {
    for outcome in [FetchOutcome::Unreachable, FetchOutcome::Refused] {
        let mut d = PhotoDelivery::new("cats".to_string());
        d.step(DeliveryEvent::Searched(SearchOutcome::Found("u".to_string())));
        d.step(DeliveryEvent::PhotoSent(SendOutcome::Refused));
        assert_eq!(
            d.step(DeliveryEvent::Fetched(outcome)),
            DeliveryAction::SendText("Failed to access the photo URL.".to_string())
        );
    }
}

#[test]
fn bad_url_ends_the_delivery_silently() {
    let mut d = PhotoDelivery::new("cats".to_string());
    d.step(DeliveryEvent::Searched(SearchOutcome::Found("not a url".to_string())));
    assert_eq!(d.step(DeliveryEvent::PhotoSent(SendOutcome::BadUrl)), DeliveryAction::Finish);
}
