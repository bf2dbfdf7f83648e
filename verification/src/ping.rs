//! The answer to a ping.

use crate::text::{codeblock, text_view};
use vstd::prelude::*;

verus! {

/// The picture that `ferris_says` draws of a text in lines of at most
/// `width` columns; `None` where it draws none.
pub uninterp spec fn said(text: Seq<char>, width: nat) -> Option<Seq<char>>;

/// The longest text and the widest bubble that are handed to `ferris_says`.
pub const BUBBLE_LIMIT: usize = 100;

/// Calls `ferris_says::say` on the bytes of the text, with a vector to write
/// to, and reads what was written with `String::from_utf8`. The wrapping it
/// does squares the gap at the end of a line in 32 bits, so text and width
/// are kept small. Claims only that the picture depends on the text and the
/// width alone.
#[verifier::external_body]
fn ferris_say(text: &str, width: usize) -> (picture: Option<String>)
    requires
        text@.len() <= BUBBLE_LIMIT,
        1 <= width <= BUBBLE_LIMIT,
    ensures
        text_view(picture) == said(text@, width as nat),
{
    let mut written: Vec<u8> = Vec::new();
    match ferris_says::say(text.as_bytes(), width, &mut written) {
        Ok(()) => match String::from_utf8(written) {
            Ok(picture) => Some(picture),
            Err(_) => None,
        },
        Err(_) => None,
    }
}

/// The width of the speech bubble.
pub const BUBBLE_WIDTH: usize = 12;

/// The answer to a ping: the picture of `Pong!`, set off as code.
pub open spec fn pong() -> Option<Seq<char>> {
    match said("Pong!"@, BUBBLE_WIDTH as nat) {
        Some(picture) => Some("```"@ + picture + "```"@),
        None => None,
    }
}

/// Draws the answer to a ping.
pub fn ping() -> (answer: Option<String>)
    ensures
        text_view(answer) == pong(),
{
    proof {
        reveal_strlit("Pong!");
    }
    match ferris_say("Pong!", BUBBLE_WIDTH) {
        Some(picture) => Some(codeblock(&picture)),
        None => None,
    }
}

} // verus!
