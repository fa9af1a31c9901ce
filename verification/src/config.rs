//! The bot's settings, as the environment gives them.
use vstd::prelude::*;
use vstd::string::*;
use crate::text::{parse_decimal, parse_usize};

verus! {

/// The chat model used when none is configured.
pub const DEFAULT_API_MODEL: &'static str = "gpt-3.5-turbo";

/// How many photos a search asks for when the configured count is not a number.
pub const DEFAULT_TOTAL_PICS: usize = 1;

/// The settings of the bot. The HTTP headers of photo searches, which hold the photo
/// service key, are built from `pexels_api_key` where the requests are sent.
#[derive(Debug, Clone, PartialEq, Eq)]
pub struct Config {
    pub bot_token: String,
    pub pexels_api_key: String,
    pub total_pics: usize,
    pub api_key: String,
    pub api_model: String,
}

/// The photo count that the text of the setting gives: the number it denotes, or
/// `DEFAULT_TOTAL_PICS` where it is not a number that fits in `usize`.
pub open spec fn total_pics_of(text: Seq<char>) -> nat {
    match parse_decimal(text) {
        Some(v) => v,
        None => DEFAULT_TOTAL_PICS as nat,
    }
}

impl Config {
    /// The settings from the values of the environment variables: the bot token, the
    /// photo service key, the chat service key, the chat model if one is set, and the
    /// text of the photo count.
    pub fn from_env(
        bot_token: String,
        pexels_api_key: String,
        api_key: String,
        api_model: Option<String>,
        total_pics: &str,
    ) -> (c: Config)
        ensures
            c.bot_token == bot_token,
            c.pexels_api_key == pexels_api_key,
            c.api_key == api_key,
            c.api_model@ == (match api_model {
                Some(m) => m@,
                None => DEFAULT_API_MODEL@,
            }),
            c.total_pics as nat == total_pics_of(total_pics@),
            parse_decimal(total_pics@) is None ==> c.total_pics == 1,
            api_model is None ==> c.api_model@ == "gpt-3.5-turbo"@,
    {
        let model = match api_model {
            Some(m) => m,
            None => String::from_str(DEFAULT_API_MODEL),
        };
        let count = match parse_usize(total_pics) {
            Some(v) => v,
            None => DEFAULT_TOTAL_PICS,
        };
        Config { bot_token, pexels_api_key, total_pics: count, api_key, api_model: model }
    }
}

} // verus!

verus! {

/// Whether a byte may stand in an HTTP header value: a visible ASCII character, a space,
/// a tab, or any byte of a non-ASCII character.
pub open spec fn header_byte_ok(b: u8) -> bool {
    (b >= 32 && b != 127) || b == 9
}

/// Whether the photo service key can be sent as the `Authorization` header: every byte
/// of its UTF-8 text may stand in a header value.
pub fn pexels_key_is_header_value(key: &str) -> (b: bool)
    ensures
        b == (forall|i: int| 0 <= i < key.spec_bytes().len() ==> header_byte_ok(
            #[trigger] key.spec_bytes()[i],
        )),
        b == (forall|i: int|
            0 <= i < key.spec_bytes().len() ==> {
                let c = #[trigger] key.spec_bytes()[i];
                c == 9 || (32 <= c <= 126) || c >= 128
            }),
{
    proof {
        law_header_bytes();
    }
    let bytes = key.as_bytes();
    let mut i: usize = 0;
    while i < bytes.len()
        invariant
            bytes@ == key.spec_bytes(),
            i <= bytes@.len(),
            forall|j: int| 0 <= j < i ==> header_byte_ok(#[trigger] bytes@[j]),
        decreases bytes@.len() - i,
    {
        let c = bytes[i];
        if !((c >= 32 && c != 127) || c == 9) {
            assert(!header_byte_ok(bytes@[i as int]));
            return false;
        }
        i += 1;
    }
    true
}

} // verus!

verus! {

/// The bytes a header value may hold are exactly the tab, the visible ASCII characters
/// with the space, and every byte of a non-ASCII character; the other control bytes and
/// DEL (127) are refused.
pub proof fn law_header_bytes()
    ensures
        forall|b: u8| #[trigger] header_byte_ok(b) <==> (b == 9 || (32 <= b <= 126) || b >= 128),
{
}

} // verus!
