//! Photo search: the request URL, and what to do with each answer of the photo service.
use vstd::prelude::*;
use rand::seq::SliceRandom;
use crate::config::total_pics_of;
use crate::text::{
    chars_of, concat_str, decimal, decimal_chars, lemma_decimal_reads_back, parse_decimal,
    remove_char, remove_char_from, string_of,
};

verus! {

/// How many requests one search may send before it gives up.
pub const MAX_ATTEMPTS: u32 = 5;

/// The search URL for a query and a photo count: the query without its underscores,
/// then the count in decimal.
pub open spec fn photo_search_url_text(query: Seq<char>, total_pics: nat) -> Seq<char> {
    "https://api.pexels.com/v1/search?query="@ + remove_char(query, '_') + "&per_page="@ + decimal(
        total_pics,
    )
}

/// The URL that searches the photo service for `query`, asking for `total_pics` photos.
pub fn photo_search_url(query: &str, total_pics: usize) -> (url: String)
    ensures
        url@ == photo_search_url_text(query@, total_pics as nat),
        url@ == "https://api.pexels.com/v1/search?query="@ + query@.filter(|x: char| x != '_')
            + "&per_page="@ + decimal(total_pics as nat),
{
    proof {
        crate::text::law_remove_char_keeps_the_rest_in_order(query@, '_');
    }
    let query_chars = chars_of(query);
    let cleared = remove_char_from(query_chars.as_slice(), '_');
    let cleared_text = string_of(cleared.as_slice());
    let count = decimal_chars(total_pics);
    let count_text = string_of(count.as_slice());
    let head = concat_str("https://api.pexels.com/v1/search?query=", cleared_text.as_str());
    let with_param = concat_str(head.as_str(), "&per_page=");
    concat_str(with_param.as_str(), count_text.as_str())
}

/// `SliceRandom::choose` from rand, with the thread-local generator. Claims what the
/// crate shows of every outcome: nothing is picked exactly when `items` is empty, and what
/// is picked is one of the items.
#[verifier::external_body]
fn choose_one<T>(items: &[T]) -> (r: Option<&T>)
    ensures
        r is None <==> items@.len() == 0,
        r matches Some(x) ==> exists|i: int| 0 <= i < items@.len() && items@[i] == *x,
{
    items.choose(&mut rand::thread_rng())
}

/// What came back from one request of a search.
#[derive(Debug, PartialEq, Eq)]
pub enum SearchEvent {
    /// The request could not be sent or got no answer.
    SendFailed,
    /// The answer came but its body could not be read as JSON.
    BodyUnreadable,
    /// The answer, reduced to what the search reads: `None` where it holds no `photos`
    /// array, else for each photo its `src.original` text, if it has one.
    Listing(Option<Vec<Option<String>>>),
}

/// What a search does after an answer.
#[derive(Debug, PartialEq, Eq)]
pub enum SearchStep {
    /// Send the request again.
    Retry,
    /// The search is over: this is the photo's URL.
    Found(String),
    /// The search is over without a photo.
    NotFound,
    /// The search is over with the error of the last request.
    Failed,
}

/// The outcome of a search given the photo that was picked from its answer, if any.
pub fn listing_step(chosen: Option<&Option<String>>) -> (step: SearchStep)
    ensures
        step == (match chosen {
            Some(Some(u)) => SearchStep::Found(*u),
            _ => SearchStep::NotFound,
        }),
{
    match chosen {
        Some(Some(url)) => SearchStep::Found(url.clone()),
        _ => SearchStep::NotFound,
    }
}

/// A photo search in progress: how many requests it has sent.
pub struct PhotoSearch {
    attempt: u32,
}

impl PhotoSearch {
    #[verifier::type_invariant]
    spec fn within_attempts(self) -> bool {
        self.attempt < MAX_ATTEMPTS
    }

    /// How many requests the search has sent, the one awaiting an answer included.
    pub closed spec fn requests_made(self) -> nat {
        (self.attempt + 1) as nat
    }

    /// A search that has sent its first request.
    pub fn new() -> (s: PhotoSearch)
        ensures
            s.requests_made() == 1,
    {
        PhotoSearch { attempt: 0 }
    }

    /// Decides what the search does after an answer. A failed send is tried again until
    /// `MAX_ATTEMPTS` requests have been made; an unreadable body ends the search with
    /// its error; a listing ends it with a photo picked at random, if the picked one has
    /// a URL.
    pub fn on_event(&mut self, event: SearchEvent) -> (step: SearchStep)
        ensures
            final(self).requests_made() <= MAX_ATTEMPTS,
            step is Retry ==> final(self).requests_made() == old(self).requests_made() + 1,
            !(step is Retry) ==> final(self).requests_made() == old(self).requests_made(),
            event is SendFailed ==> (step is Retry <==> old(self).requests_made()
                < MAX_ATTEMPTS),
            event is SendFailed ==> (step is Retry || step is Failed),
            event is SendFailed ==> (step is Retry <==> old(self).requests_made() < 5),
            final(self).requests_made() <= 5,
            event is BodyUnreadable ==> step is Failed,
            event matches SearchEvent::Listing(l) ==> (step is Found || step is NotFound),
            event matches SearchEvent::Listing(None) ==> step is NotFound,
            event matches SearchEvent::Listing(Some(photos)) ==> (photos@.len() == 0
                ==> step is NotFound),
            event matches SearchEvent::Listing(Some(photos)) ==> (step matches SearchStep::Found(
                u,
            ) ==> exists|i: int| 0 <= i < photos@.len() && photos@[i] == Some(u)),
            event matches SearchEvent::Listing(Some(photos)) ==> (step is NotFound && photos@.len()
                > 0 ==> exists|i: int| 0 <= i < photos@.len() && photos@[i] is None),
    {
        proof {
            use_type_invariant(&*self);
        }
        match event {
            SearchEvent::SendFailed => {
                if self.attempt + 1 < MAX_ATTEMPTS {
                    self.attempt = self.attempt + 1;
                    SearchStep::Retry
                } else {
                    SearchStep::Failed
                }
            },
            SearchEvent::BodyUnreadable => SearchStep::Failed,
            SearchEvent::Listing(None) => SearchStep::NotFound,
            SearchEvent::Listing(Some(photos)) => {
                let chosen = choose_one(photos.as_slice());
                listing_step(chosen)
            },
        }
    }
}

} // verus!

verus! {

/// The photo count that the settings take from their text is the count that every search
/// asks for: the search URL ends with `&per_page=` and that count in decimal, which
/// reads back as the same number.
pub proof fn law_search_asks_for_configured_count(query: Seq<char>, setting: Seq<char>)
    ensures
        ({
            let n = total_pics_of(setting);
            let url = photo_search_url_text(query, n);
            let tail = url.skip(url.len() - decimal(n).len());
            &&& tail == decimal(n)
            &&& parse_decimal(tail) == Some(n)
        }),
{
    let n = total_pics_of(setting);
    assert(n <= usize::MAX);
    let url = photo_search_url_text(query, n);
    assert(url.skip(url.len() - decimal(n).len()) =~= decimal(n));
    lemma_decimal_reads_back(n);
}

} // verus!
