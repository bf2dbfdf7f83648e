//! The record kept for each poll: its key, the sealed payload under which its
//! tally is stored, and the sweep that finds the records to drop.
//!
//! The store itself is the caller's: this module says what is handed to it
//! and what is made of what comes back.

use crate::clock::Timestamp;
use crate::codec::{
    is_writable, kept_in, lemma_kept_in_own_text, record_text, tally_from_json, tally_to_json,
};
use crate::poll::{fresh_view, Tally, TallyView};
use crate::scan::{lemma_decimal_names_one, views};
use crate::text::{decimal, decimal_text, text_view};
use magic_crypt::MagicCryptTrait;
use vstd::prelude::*;
use vstd::utf8::{decode_utf8, valid_utf8};

verus! {

/// The error of `magic_crypt`, of which verified code asks nothing.
#[verifier::external_type_specification]
#[verifier::external_body]
pub struct ExMagicCryptError(magic_crypt::MagicCryptError);

/// What `magic_crypt` makes of a text under a key: the text's bytes
/// encrypted with AES-128 in CBC mode under the key's MD5 digest, in base64.
pub uninterp spec fn sealed_text(key: Seq<char>, plain: Seq<char>) -> Seq<char>;

/// What `magic_crypt` reads from a sealed text under a key; `None` where it
/// reads nothing.
pub uninterp spec fn opened_text(key: Seq<char>, sealed: Seq<char>) -> Option<Seq<char>>;

/// Calls `MagicCrypt128::new` with the key and no initial vector, and
/// `encrypt_str_to_base64` on the cipher it gives. Claims that the result
/// depends on the key and the text alone, and that it opens under the same
/// key to the text it was made of: the cipher pads, encrypts and encodes,
/// and opening decodes, decrypts and takes the padding off again.
#[verifier::external_body]
fn magic_encrypt(key: &str, plain: &str) -> (sealed: String)
    ensures
        sealed@ == sealed_text(key@, plain@),
        opened_text(key@, sealed@) == Some(plain@),
{
    magic_crypt::MagicCrypt128::new(key, None::<&str>).encrypt_str_to_base64(plain)
}

/// Calls `MagicCrypt128::new` with the key and no initial vector, and
/// `decrypt_base64_to_string` on the cipher it gives. Claims only that the
/// result, and whether there is one, depend on the key and the sealed text
/// alone.
#[verifier::external_body]
fn magic_decrypt(key: &str, sealed: &str) -> (plain: Result<String, magic_crypt::MagicCryptError>)
    ensures
        match plain {
            Ok(text) => opened_text(key@, sealed@) == Some(text@),
            Err(_) => opened_text(key@, sealed@) is None,
        },
{
    magic_crypt::MagicCrypt128::new(key, None::<&str>).decrypt_base64_to_string(sealed)
}

/// Calls `String::from_utf8`, which gives the text that the bytes encode
/// where they are valid UTF-8, and an error where they are not.
#[verifier::external_body]
fn utf8_text(bytes: Vec<u8>) -> (text: Option<String>)
    ensures
        match text {
            Some(read) => valid_utf8(bytes@) && read@ == decode_utf8(bytes@),
            None => !valid_utf8(bytes@),
        },
{
    match String::from_utf8(bytes) {
        Ok(read) => Some(read),
        Err(_) => None,
    }
}

/// Seals a text under a key. What it gives opens under the same key to the
/// text again.
pub fn encrypt_str_to_base64(key: &String, input: &String) -> (sealed: String)
    ensures
        sealed@ == sealed_text(key@, input@),
        opened_text(key@, sealed@) == Some(input@),
        opened_or_empty(key@, sealed@) == input@,
{
    magic_encrypt(key.as_str(), input.as_str())
}

/// What is made of a sealed text: the text it opens to, and the empty text
/// where it opens to none.
pub open spec fn opened_or_empty(key: Seq<char>, sealed: Seq<char>) -> Seq<char> {
    match opened_text(key, sealed) {
        Some(text) => text,
        None => Seq::empty(),
    }
}

/// Opens a sealed text under a key. A text that does not open gives the
/// empty text.
pub fn decrypt_base64_to_string(key: &String, base64: &String) -> (plain: String)
    ensures
        plain@ == opened_or_empty(key@, base64@),
{
    match magic_decrypt(key.as_str(), base64.as_str()) {
        Ok(text) => text,
        Err(_) => String::new(),
    }
}

/// The key of a poll's record: the poll's identifier in decimal.
pub fn record_key(id: u64) -> (key: String)
    ensures
        key@ == decimal(id as nat),
{
    decimal_text(id as u128)
}

/// Two polls never share a key.
pub proof fn lemma_keys_differ(a: u64, b: u64)
    requires
        a != b,
    ensures
        decimal(a as nat) != decimal(b as nat),
{
    if decimal(a as nat) == decimal(b as nat) {
        lemma_decimal_names_one(a, b);
    }
}

/// What the store is taken to hold under a key: the text of the bytes it
/// gave, and the empty text where it gave none or they are no text.
pub open spec fn stored_text(found: Option<Vec<u8>>) -> Seq<char> {
    match found {
        Some(bytes) => if valid_utf8(bytes@) {
            decode_utf8(bytes@)
        } else {
            Seq::empty()
        },
        None => Seq::empty(),
    }
}

/// Makes a payload of what the store gave for a key. A missing entry is no
/// fault: it gives the empty payload, and so do bytes that are no text.
pub fn db_get(found: Option<Vec<u8>>) -> (payload: String)
    ensures
        payload@ == stored_text(found),
{
    match found {
        Some(bytes) => match utf8_text(bytes) {
            Some(text) => text,
            None => String::new(),
        },
        None => String::new(),
    }
}

/// The payload under which a tally is stored: its text, sealed, provided the
/// tally can be written.
pub open spec fn sealed_record(key: Seq<char>, tally: TallyView) -> Option<Seq<char>> {
    if is_writable(tally) {
        Some(sealed_text(key, record_text(tally)))
    } else {
        None
    }
}

/// The tally that a payload holds, if it holds one.
pub open spec fn opened_record(key: Seq<char>, payload: Seq<char>) -> Option<TallyView> {
    match opened_text(key, payload) {
        Some(text) => kept_in(text),
        None => None,
    }
}

/// The tally to act on, given what is stored for a poll of `choices`
/// choices: the stored tally where the payload holds one with a bucket for
/// each choice, and a fresh one in every other case.
pub open spec fn loaded(key: Seq<char>, payload: Seq<char>, choices: nat, now: Timestamp)
    -> TallyView {
    match opened_record(key, payload) {
        Some(tally) => if tally.fits(choices) {
            tally
        } else {
            fresh_view(choices, now)
        },
        None => fresh_view(choices, now),
    }
}

/// Seals a tally for the store. Every tally that can be written is sealed,
/// and the payload opens under the same key to the tally it was made of.
pub fn seal_tally(key: &String, tally: &Tally) -> (payload: Option<String>)
    ensures
        text_view(payload) == sealed_record(key@, tally@),
        is_writable(tally@) <==> payload is Some,
        payload matches Some(sealed) ==> opened_record(key@, sealed@) == Some(tally@),
{
    match tally_to_json(tally) {
        Some(text) => {
            let sealed = magic_encrypt(key.as_str(), text.as_str());
            proof {
                lemma_kept_in_own_text(tally@);
            }
            Some(sealed)
        },
        None => None,
    }
}

/// Opens a payload.
pub fn open_tally(key: &String, payload: &String) -> (found: Option<Tally>)
    ensures
        crate::codec::tally_view(found) == opened_record(key@, payload@),
{
    match magic_decrypt(key.as_str(), payload.as_str()) {
        Ok(text) => tally_from_json(text.as_str()),
        Err(_) => None,
    }
}

/// Loads the tally of a poll of `choices` choices from what is stored for
/// it. A payload that does not open, holds no tally or holds one of another
/// shape is no fault: the poll starts afresh. Only what `seal_tally` hands
/// out holds a tally: the same JSON laid out otherwise does not.
pub fn load_tally(key: &String, payload: &String, choices: usize, now: Timestamp) -> (tally: Tally)
    ensures
        tally@ == loaded(key@, payload@, choices as nat, now),
        tally@.fits(choices as nat),
{
    match open_tally(key, payload) {
        Some(tally) => if tally.bucket_count() == choices {
            tally
        } else {
            Tally::fresh(choices, now)
        },
        None => Tally::fresh(choices, now),
    }
}

/// A payload that opens to the text of a tally holds that tally, and a
/// poll of as many choices as the tally has buckets loads it as it is.
pub proof fn lemma_sealed_opens(
    key: Seq<char>,
    payload: Seq<char>,
    tally: TallyView,
    choices: nat,
    now: Timestamp,
)
    requires
        is_writable(tally),
        opened_text(key, payload) == Some(record_text(tally)),
    ensures
        opened_record(key, payload) == Some(tally),
        tally.fits(choices) ==> loaded(key, payload, choices, now) == tally,
{
    lemma_kept_in_own_text(tally);
}

/// Whether a stored record has outlived the retention window at `now`: its
/// payload holds a tally, and that tally was last updated more than thirty
/// days before.
pub open spec fn is_stale(key: Seq<char>, payload: Seq<char>, now: Timestamp) -> bool {
    match opened_record(key, payload) {
        Some(tally) => tally.lastupdate.is_expired_at(now),
        None => false,
    }
}

/// A payload that opens to the text of a tally is stale exactly when the
/// tally's last update lies more than thirty days back.
pub proof fn lemma_sealed_goes_stale(
    key: Seq<char>,
    payload: Seq<char>,
    tally: TallyView,
    now: Timestamp,
)
    requires
        is_writable(tally),
        opened_text(key, payload) == Some(record_text(tally)),
    ensures
        is_stale(key, payload, now) == tally.lastupdate.is_expired_at(now),
{
    lemma_sealed_opens(key, payload, tally, 0, now);
}

/// The keys of the stale records, in the order of the records.
pub open spec fn stale_keys(key: Seq<char>, records: Seq<(String, String)>, now: Timestamp) -> Seq<
    Seq<char>,
>
    decreases records.len(),
{
    if records.len() == 0 {
        Seq::empty()
    } else if is_stale(key, records.last().1@, now) {
        stale_keys(key, records.drop_last(), now).push(records.last().0@)
    } else {
        stale_keys(key, records.drop_last(), now)
    }
}

/// Decides `is_stale`.
pub fn stale(key: &String, payload: &String, now: &Timestamp) -> (b: bool)
    ensures
        b == is_stale(key@, payload@, *now),
{
    match open_tally(key, payload) {
        Some(tally) => tally.lastupdate.expired_at(now),
        None => false,
    }
}

/// Goes through the stored records, each a key with its payload, and names
/// those to drop.
pub fn sweep(key: &String, records: &Vec<(String, String)>, now: Timestamp) -> (dropped: Vec<
    String,
>)
    ensures
        views(dropped@) == stale_keys(key@, records@, now),
{
    let mut dropped: Vec<String> = Vec::new();
    let mut i: usize = 0;
    assert(views(dropped@) =~= Seq::<Seq<char>>::empty());
    while i < records.len()
        invariant
            i <= records@.len(),
            views(dropped@) == stale_keys(key@, records@.take(i as int), now),
        decreases records@.len() - i,
    {
        assert(records@.take(i + 1).drop_last() =~= records@.take(i as int));
        if stale(key, &records[i].1, &now) {
            let name = records[i].0.clone();
            assert(views(dropped@.push(name)) =~= views(dropped@).push(name@));
            dropped.push(name);
        }
        i += 1;
    }
    assert(records@.take(i as int) =~= records@);
    dropped
}

} // verus!
