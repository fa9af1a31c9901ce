use rust_openai_bot::pexels::{listing_step, photo_search_url, PhotoSearch, SearchEvent, SearchStep};

#[test]
fn search_url_drops_underscores_and_asks_for_the_count() {
    assert_eq!(
        photo_search_url("fast_cars", 3),
        "https://api.pexels.com/v1/search?query=fastcars&per_page=3"
    );
    assert_eq!(
        photo_search_url("under_water_scenes", 15),
        "https://api.pexels.com/v1/search?query=underwaterscenes&per_page=15"
    );
    assert_eq!(photo_search_url("", 0), "https://api.pexels.com/v1/search?query=&per_page=0");
}

#[test]
fn failed_sends_are_retried_until_five_requests() {
    let mut s = PhotoSearch::new();
    for _ in 0..4 {
        assert_eq!(s.on_event(SearchEvent::SendFailed), SearchStep::Retry);
    }
    assert_eq!(s.on_event(SearchEvent::SendFailed), SearchStep::Failed);
    assert_eq!(s.on_event(SearchEvent::SendFailed), SearchStep::Failed);
}

#[test]
fn unreadable_body_ends_the_search_at_once() {
    let mut s = PhotoSearch::new();
    assert_eq!(s.on_event(SearchEvent::BodyUnreadable), SearchStep::Failed);
}

#[test]
fn answer_without_photos_finds_nothing() {
    let mut s = PhotoSearch::new();
    assert_eq!(s.on_event(SearchEvent::Listing(None)), SearchStep::NotFound);
    let mut s = PhotoSearch::new();
    assert_eq!(s.on_event(SearchEvent::Listing(Some(vec![]))), SearchStep::NotFound);
    let mut s = PhotoSearch::new();
    assert_eq!(s.on_event(SearchEvent::Listing(Some(vec![None]))), SearchStep::NotFound);
}

#[test]
fn the_only_photo_is_found() {
    let mut s = PhotoSearch::new();
    let url = "https://images.pexels.com/photos/1/dog.jpeg".to_string();
    assert_eq!(
        s.on_event(SearchEvent::Listing(Some(vec![Some(url.clone())]))),
        SearchStep::Found(url)
    );
}

#[test]
fn a_found_photo_is_one_of_the_listed() {
    let urls: Vec<Option<String>> = (0..10).map(|i| Some(format!("https://p/{i}.jpg"))).collect();
    for _ in 0..20 {
        let mut s = PhotoSearch::new();
        match s.on_event(SearchEvent::Listing(Some(urls.clone()))) {
            SearchStep::Found(u) => assert!(urls.contains(&Some(u))),
            other => panic!("unexpected {other:?}"),
        }
    }
}

#[test]
fn search_retries_then_finds() {
    let mut s = PhotoSearch::new();
    assert_eq!(s.on_event(SearchEvent::SendFailed), SearchStep::Retry);
    assert_eq!(
        s.on_event(SearchEvent::Listing(Some(vec![Some("u".to_string())]))),
        SearchStep::Found("u".to_string())
    );
}

#[test]
fn listing_step_reads_the_picked_photo() {
    let photo = Some("x".to_string());
    assert_eq!(listing_step(Some(&photo)), SearchStep::Found("x".to_string()));
    assert_eq!(listing_step(Some(&None)), SearchStep::NotFound);
    assert_eq!(listing_step(None), SearchStep::NotFound);
}
