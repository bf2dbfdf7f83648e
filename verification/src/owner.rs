//! Who created a poll, as far as the address of the creator's picture tells.

use crate::scan::{has_at, read_unsigned, remove_all, stands_at, unsigned_of, without_part};
use crate::text::{chars_of, text_view};
use vstd::prelude::*;

verus! {

/// The first match of a pattern in a text, as `fancy_regex` finds it; `None`
/// where it finds none or gives up.
pub uninterp spec fn first_match(pattern: Seq<char>, text: Seq<char>) -> Option<Seq<char>>;

/// Calls `fancy_regex::Regex::new` on the pattern and `Regex::find` on the
/// text, and copies the match with `Match::as_str`. It is called for the one
/// pattern of `between_slashes`. Claims only that the result depends on the
/// pattern and the text alone.
#[verifier::external_body]
fn regex_find(pattern: &str, text: &str) -> (found: Option<String>)
    requires
        pattern@ == between_slashes(),
    ensures
        text_view(found) == first_match(pattern@, text@),
{
    match fancy_regex::Regex::new(pattern) {
        Ok(regex) => match regex.find(text) {
            Ok(Some(found)) => Some(found.as_str().to_string()),
            Ok(None) => None,
            Err(_) => None,
        },
        Err(_) => None,
    }
}

/// Where the pictures of users without one of their own are kept.
pub open spec fn stock_pictures() -> Seq<char> {
    "https://cdn.discordapp.com/embed/avatars/"@
}

/// Where the users' own pictures are kept.
pub open spec fn own_pictures() -> Seq<char> {
    "https://cdn.discordapp.com/avatars"@
}

/// The pattern of the shortest text between two slashes.
pub open spec fn between_slashes() -> Seq<char> {
    "(?<=\\/).+?(?=\\/)"@
}

/// The user that the address of a picture names: nobody, written 0, for a
/// stock picture; else the number that stands between the first two slashes
/// behind the place of the users' pictures.
pub open spec fn uid_of(url: Seq<char>) -> Option<u64> {
    if has_at(url, 0, stock_pictures()) {
        Some(0)
    } else {
        match first_match(between_slashes(), without_part(url, own_pictures())) {
            Some(found) => unsigned_of(found, u64::MAX),
            None => None,
        }
    }
}

/// Reads the user from the address of a picture, where the address names
/// one.
pub fn icon_url_to_uid(url: &String) -> (uid: Option<u64>)
    ensures
        uid == uid_of(url@),
{
    let input = chars_of(url.as_str());
    if stands_at(&input, 0, "https://cdn.discordapp.com/embed/avatars/") {
        return Some(0);
    }
    let path = remove_all(url.as_str(), "https://cdn.discordapp.com/avatars");
    match regex_find("(?<=\\/).+?(?=\\/)", path.as_str()) {
        Some(found) => read_unsigned(found.as_str(), u64::MAX),
        None => None,
    }
}

} // verus!
