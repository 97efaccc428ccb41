//! Parsers for the mention, emoji and invite markers that appear in chat
//! messages, a quote-aware argument tokenizer, and the builder of a message
//! to send.

pub mod builder;
pub mod digits;
pub mod error;
pub mod invite;
pub mod json;
pub mod mention;
pub mod quotes;
pub mod text;

pub use builder::{CreateEmbed, CreateMessage};
pub use digits::parse_id;
pub use error::Error;
pub use invite::parse_invite;
pub use mention::{parse_channel, parse_emoji, parse_role, parse_username};
pub use quotes::parse_quotes;

use vstd::prelude::*;

verus! {

/// What each parser answers depends on the characters of its text and on
/// nothing else: two texts of the same characters get the same answer from
/// every one of them, whenever and however often they are asked.
pub proof fn lemma_same_text_same_answer(a: Seq<char>, b: Seq<char>)
    requires
        a == b,
    ensures
        mention::username_id(a) == mention::username_id(b),
        mention::role_id(a) == mention::role_id(b),
        mention::channel_id(a) == mention::channel_id(b),
        mention::emoji_of(a) == mention::emoji_of(b),
        invite::invite_code(a) == invite::invite_code(b),
        quotes::tokens_of(a) == quotes::tokens_of(b),
{
}

} // verus!
