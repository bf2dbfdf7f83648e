//! The text under which a tally is kept: one JSON object with the buckets
//! under `votes`, the instant of the last update under `lastupdate` and the
//! closed flag under `isended`, written without any white space.
//!
//! A record is the text that `tally_to_json` writes, and nothing else. The
//! same JSON with white space in it, with its members in another order, or
//! with an instant written with an offset in place of `Z`, is no record, and
//! `tally_from_json` reads no tally from it.

use crate::clock::{rfc3339_instant, Timestamp};
use crate::poll::{Ballot, Tally, TallyView};
use crate::scan::{
    has_at, is_digit, lemma_has_at_concat, lemma_number_read_back, number_at, read_number,
    stands_at,
};
use crate::text::{chars_of, decimal, decimal_text};
use vstd::prelude::*;
use vstd::string::StringExecFns;

verus! {

/// `{"id":`
pub open spec fn open_id() -> Seq<char> {
    seq!['{', '"', 'i', 'd', '"', ':']
}

/// `,"time":"`
pub open spec fn time_key() -> Seq<char> {
    seq![',', '"', 't', 'i', 'm', 'e', '"', ':', '"']
}

/// `"}`
pub open spec fn close_ballot() -> Seq<char> {
    seq!['"', '}']
}

/// `{"votes":[`
pub open spec fn votes_open() -> Seq<char> {
    seq!['{', '"', 'v', 'o', 't', 'e', 's', '"', ':', '[']
}

/// `,"lastupdate":"`
pub open spec fn lastupdate_key() -> Seq<char> {
    seq![',', '"', 'l', 'a', 's', 't', 'u', 'p', 'd', 'a', 't', 'e', '"', ':', '"']
}

/// `","isended":`
pub open spec fn ended_key() -> Seq<char> {
    seq!['"', ',', '"', 'i', 's', 'e', 'n', 'd', 'e', 'd', '"', ':']
}

/// `true}` or `false}`
pub open spec fn flag_close(flag: bool) -> Seq<char> {
    if flag {
        seq!['t', 'r', 'u', 'e', '}']
    } else {
        seq!['f', 'a', 'l', 's', 'e', '}']
    }
}

/// What stands before an item of a list: nothing before the first, a comma
/// before the others.
pub open spec fn separator(first: bool) -> Seq<char> {
    if first {
        Seq::empty()
    } else {
        seq![',']
    }
}

/// The text of an instant in a record.
pub open spec fn stamp(t: Timestamp) -> Seq<char> {
    match t.written() {
        Some(text) => text,
        None => Seq::empty(),
    }
}

/// The text of one ballot.
pub open spec fn ballot_text(ballot: Ballot) -> Seq<char> {
    open_id() + decimal(ballot.id as nat) + time_key() + stamp(ballot.time) + close_ballot()
}

/// The text of a bucket's ballots, with commas between them.
pub open spec fn ballots_text(ballots: Seq<Ballot>, first: bool) -> Seq<char>
    decreases ballots.len(),
{
    if ballots.len() == 0 {
        Seq::empty()
    } else {
        separator(first) + ballot_text(ballots[0]) + ballots_text(ballots.drop_first(), false)
    }
}

/// The text of one bucket.
pub open spec fn bucket_text(ballots: Seq<Ballot>) -> Seq<char> {
    seq!['['] + ballots_text(ballots, true) + seq![']']
}

/// The text of the buckets, with commas between them.
pub open spec fn buckets_text(buckets: Seq<Seq<Ballot>>, first: bool) -> Seq<char>
    decreases buckets.len(),
{
    if buckets.len() == 0 {
        Seq::empty()
    } else {
        separator(first) + bucket_text(buckets[0]) + buckets_text(buckets.drop_first(), false)
    }
}

/// The text of a tally.
pub open spec fn record_text(tally: TallyView) -> Seq<char> {
    votes_open() + buckets_text(tally.buckets, true) + seq![']'] + lastupdate_key() + stamp(
        tally.lastupdate,
    ) + ended_key() + flag_close(tally.ended)
}

/// A tally can be written when each of its instants can.
pub open spec fn is_writable(tally: TallyView) -> bool {
    &&& tally.lastupdate.written() is Some
    &&& forall|i: int, j: int|
        0 <= i < tally.buckets.len() && 0 <= j < tally.buckets[i].len() ==> (
        #[trigger] tally.buckets[i][j]).time.written() is Some
}

/// The place of the first quotation mark at or behind `pos`, or the end of
/// the text where none follows.
pub open spec fn scan_plain(text: Seq<char>, pos: int) -> int
    decreases text.len() - pos,
{
    if 0 <= pos < text.len() && text[pos] != '"' {
        scan_plain(text, pos + 1)
    } else {
        pos
    }
}

/// Finds the first quotation mark at or behind `pos`.
fn find_quote(input: &Vec<char>, pos: usize) -> (end: usize)
    requires
        pos <= input@.len(),
    ensures
        end == scan_plain(input@, pos as int),
        pos <= end <= input@.len(),
{
    let ghost text = input@;
    let mut at: usize = pos;
    while at < input.len() && input[at] != '"'
        invariant
            text == input@,
            pos <= at <= text.len(),
            scan_plain(text, pos as int) == scan_plain(text, at as int),
        decreases text.len() - at,
    {
        at += 1;
    }
    at
}

/// The instant that stands at `pos` up to the next quotation mark, where
/// that mark opens `close`, and the place behind `close`.
pub open spec fn stamp_at(text: Seq<char>, pos: int, close: Seq<char>) -> Option<(Timestamp, int)> {
    let end = scan_plain(text, pos);
    if 0 <= pos <= end && has_at(text, end, close) {
        match rfc3339_instant(text.subrange(pos, end)) {
            Some(instant) => Some((instant, end + close.len())),
            None => None,
        }
    } else {
        None
    }
}

/// Reads the instant that stands at `pos`.
fn read_stamp(input: &Vec<char>, pos: usize, close: &str) -> (found: Option<(Timestamp, usize)>)
    requires
        pos <= input@.len(),
    ensures
        match found {
            Some((instant, next)) => stamp_at(input@, pos as int, close@) == Some(
                (instant, next as int),
            ) && pos <= next <= input@.len(),
            None => stamp_at(input@, pos as int, close@) is None,
        },
{
    let end = find_quote(input, pos);
    if !stands_at(input, end, close) {
        return None;
    }
    let written = crate::text::text_between(input, pos, end);
    let size = chars_of(close).len();
    let limit = input.len();
    assert(end + size <= limit);
    match Timestamp::from_text(written.as_str()) {
        Some(instant) => Some((instant, end + size)),
        None => None,
    }
}

/// The ballot that stands at `pos`, and the place behind it.
pub open spec fn ballot_at(text: Seq<char>, pos: int) -> Option<(Ballot, int)> {
    if !has_at(text, pos, open_id()) {
        None
    } else {
        match number_at(text, pos + open_id().len()) {
            None => None,
            Some((id, behind)) => if !has_at(text, behind, time_key()) {
                None
            } else {
                match stamp_at(text, behind + time_key().len(), close_ballot()) {
                    Some((time, next)) => Some((Ballot { id, time }, next)),
                    None => None,
                }
            },
        }
    }
}

/// Reads the ballot that stands at `pos`.
fn read_ballot(input: &Vec<char>, pos: usize) -> (found: Option<(Ballot, usize)>)
    ensures
        match found {
            Some((ballot, next)) => ballot_at(input@, pos as int) == Some((ballot, next as int))
                && pos < next <= input@.len(),
            None => ballot_at(input@, pos as int) is None,
        },
{
    proof {
        reveal_strlit("{\"id\":");
        reveal_strlit(",\"time\":\"");
        reveal_strlit("\"}");
        assert("{\"id\":"@ =~= open_id());
        assert(",\"time\":\""@ =~= time_key());
        assert("\"}"@ =~= close_ballot());
    }
    let limit = input.len();
    if !stands_at(input, pos, "{\"id\":") {
        return None;
    }
    assert(pos + 6 <= limit);
    let (id, behind) = match read_number(input, pos + 6) {
        Some(read) => read,
        None => {
            return None;
        },
    };
    if !stands_at(input, behind, ",\"time\":\"") {
        return None;
    }
    assert(behind + 9 <= limit);
    match read_stamp(input, behind + 9, "\"}") {
        Some((time, next)) => Some((Ballot { id, time }, next)),
        None => None,
    }
}

/// The ballots that stand from `pos` up to the bracket that closes their
/// list, behind the ballots `seen` that were read before them, and the place
/// behind that bracket.
pub open spec fn ballots_at(text: Seq<char>, pos: int, seen: Seq<Ballot>, first: bool) -> Option<
    (Seq<Ballot>, int),
>
    decreases text.len() - pos,
{
    if pos < 0 || pos >= text.len() {
        None
    } else if text[pos] == ']' {
        Some((seen, pos + 1))
    } else if !first && text[pos] != ',' {
        None
    } else {
        match ballot_at(text, pos + separator(first).len()) {
            Some((ballot, next)) => if pos < next <= text.len() {
                ballots_at(text, next, seen.push(ballot), false)
            } else {
                None
            },
            None => None,
        }
    }
}

/// The bucket that stands at `pos`, and the place behind it.
pub open spec fn bucket_at(text: Seq<char>, pos: int) -> Option<(Seq<Ballot>, int)> {
    if 0 <= pos < text.len() && text[pos] == '[' {
        ballots_at(text, pos + 1, Seq::empty(), true)
    } else {
        None
    }
}

/// Reads the bucket that stands at `pos`.
fn read_bucket(input: &Vec<char>, pos: usize) -> (found: Option<(Vec<Ballot>, usize)>)
    ensures
        match found {
            Some((ballots, next)) => bucket_at(input@, pos as int) == Some(
                (ballots@, next as int),
            ) && pos < next <= input@.len(),
            None => bucket_at(input@, pos as int) is None,
        },
{
    if pos >= input.len() || input[pos] != '[' {
        return None;
    }
    let ghost text = input@;
    let mut seen: Vec<Ballot> = Vec::new();
    let mut first = true;
    let mut at: usize = pos + 1;
    loop
        invariant
            text == input@,
            pos < at <= text.len(),
            bucket_at(text, pos as int) == ballots_at(text, at as int, seen@, first),
        decreases text.len() - at,
    {
        if at >= input.len() {
            return None;
        }
        if input[at] == ']' {
            return Some((seen, at + 1));
        }
        let start = if first {
            at
        } else {
            if input[at] != ',' {
                return None;
            }
            at + 1
        };
        match read_ballot(input, start) {
            Some((ballot, next)) => {
                seen.push(ballot);
                first = false;
                at = next;
            },
            None => {
                return None;
            },
        }
    }
}

/// The buckets that stand from `pos` up to the bracket that closes their
/// list, behind the buckets `seen` that were read before them, and the place
/// behind that bracket.
pub open spec fn buckets_at(
    text: Seq<char>,
    pos: int,
    seen: Seq<Seq<Ballot>>,
    first: bool,
) -> Option<(Seq<Seq<Ballot>>, int)>
    decreases text.len() - pos,
{
    if pos < 0 || pos >= text.len() {
        None
    } else if text[pos] == ']' {
        Some((seen, pos + 1))
    } else if !first && text[pos] != ',' {
        None
    } else {
        match bucket_at(text, pos + separator(first).len()) {
            Some((bucket, next)) => if pos < next <= text.len() {
                buckets_at(text, next, seen.push(bucket), false)
            } else {
                None
            },
            None => None,
        }
    }
}

/// The views of the buckets read so far.
pub open spec fn views_of(buckets: Seq<Vec<Ballot>>) -> Seq<Seq<Ballot>> {
    Seq::new(buckets.len(), |i: int| buckets[i]@)
}

/// Reads the buckets that stand from `pos` on.
fn read_buckets(input: &Vec<char>, pos: usize) -> (found: Option<(Vec<Vec<Ballot>>, usize)>)
    requires
        pos <= input@.len(),
    ensures
        match found {
            Some((buckets, next)) => buckets_at(input@, pos as int, Seq::empty(), true) == Some(
                (views_of(buckets@), next as int),
            ) && pos < next <= input@.len(),
            None => buckets_at(input@, pos as int, Seq::empty(), true) is None,
        },
{
    let ghost text = input@;
    let mut seen: Vec<Vec<Ballot>> = Vec::new();
    let mut first = true;
    let mut at: usize = pos;
    assert(views_of(seen@) =~= Seq::<Seq<Ballot>>::empty());
    loop
        invariant
            text == input@,
            pos <= at <= text.len(),
            buckets_at(text, pos as int, Seq::empty(), true) == buckets_at(
                text,
                at as int,
                views_of(seen@),
                first,
            ),
        decreases text.len() - at,
    {
        if at >= input.len() {
            return None;
        }
        if input[at] == ']' {
            return Some((seen, at + 1));
        }
        let start = if first {
            at
        } else {
            if input[at] != ',' {
                return None;
            }
            at + 1
        };
        match read_bucket(input, start) {
            Some((bucket, next)) => {
                assert(views_of(seen@.push(bucket)) =~= views_of(seen@).push(bucket@));
                seen.push(bucket);
                first = false;
                at = next;
            },
            None => {
                return None;
            },
        }
    }
}

/// The scan for a quotation mark stops at the first one.
proof fn lemma_scan_to_quote(text: Seq<char>, pos: int, end: int)
    requires
        0 <= pos <= end < text.len(),
        forall|k: int| pos <= k < end ==> text[k] != '"',
        text[end] == '"',
    ensures
        scan_plain(text, pos) == end,
    decreases end - pos,
{
    if pos < end {
        lemma_scan_to_quote(text, pos + 1, end);
    }
}

/// An instant that can be written, followed by a closing text that begins
/// with a quotation mark, is read back as it was written.
pub proof fn lemma_stamp_read_back(text: Seq<char>, pos: int, t: Timestamp, close: Seq<char>)
    requires
        t.written() is Some,
        has_at(text, pos, stamp(t)),
        has_at(text, pos + stamp(t).len(), close),
        close.len() > 0,
        close[0] == '"',
    ensures
        stamp_at(text, pos, close) == Some((t, pos + stamp(t).len() + close.len())),
{
    let written = stamp(t);
    let end = pos + written.len();
    assert(text.subrange(end, end + close.len())[0] == close[0]);
    assert forall|k: int| pos <= k < end implies text[k] != '"' by {
        assert(text.subrange(pos, end)[k - pos] == written[k - pos]);
    }
    lemma_scan_to_quote(text, pos, end);
}

/// A ballot whose instant can be written is read back as it was written.
pub proof fn lemma_ballot_read_back(text: Seq<char>, pos: int, ballot: Ballot)
    requires
        ballot.time.written() is Some,
        has_at(text, pos, ballot_text(ballot)),
    ensures
        ballot_at(text, pos) == Some((ballot, pos + ballot_text(ballot).len())),
{
    let id = decimal(ballot.id as nat);
    let time = stamp(ballot.time);
    lemma_has_at_concat(text, pos, open_id() + id + time_key() + time, close_ballot());
    lemma_has_at_concat(text, pos, open_id() + id + time_key(), time);
    lemma_has_at_concat(text, pos, open_id() + id, time_key());
    lemma_has_at_concat(text, pos, open_id(), id);
    let behind = pos + open_id().len() + id.len();
    assert(text.subrange(behind, behind + time_key().len())[0] == time_key()[0]);
    lemma_number_read_back(text, pos + open_id().len(), ballot.id);
    lemma_stamp_read_back(text, behind + time_key().len(), ballot.time, close_ballot());
}

/// Whether every instant of a bucket can be written.
pub open spec fn ballots_writable(ballots: Seq<Ballot>) -> bool {
    forall|j: int| 0 <= j < ballots.len() ==> (#[trigger] ballots[j]).time.written() is Some
}

/// The ballots of a list that is closed by its bracket are read back as they
/// were written.
pub proof fn lemma_ballots_read_back(
    text: Seq<char>,
    pos: int,
    ballots: Seq<Ballot>,
    seen: Seq<Ballot>,
    first: bool,
)
    requires
        ballots_writable(ballots),
        has_at(text, pos, ballots_text(ballots, first) + seq![']']),
    ensures
        ballots_at(text, pos, seen, first) == Some(
            (seen + ballots, pos + ballots_text(ballots, first).len() + 1),
        ),
    decreases ballots.len(),
{
    let whole = ballots_text(ballots, first);
    lemma_has_at_concat(text, pos, whole, seq![']']);
    if ballots.len() == 0 {
        assert(text.subrange(pos, pos + 1)[0] == ']');
        assert(seen + ballots =~= seen);
    } else {
        let item = ballot_text(ballots[0]);
        let rest = ballots_text(ballots.drop_first(), false);
        let lead = separator(first);
        assert(whole == lead + item + rest);
        lemma_has_at_concat(text, pos, lead + item, rest);
        lemma_has_at_concat(text, pos, lead, item);
        assert(text.subrange(pos, pos + (lead + item).len())[0] == (lead + item)[0]);
        assert(ballots[0].time.written() is Some);
        lemma_ballot_read_back(text, pos + lead.len(), ballots[0]);
        let next = pos + lead.len() + item.len();
        lemma_has_at_concat(text, next, rest, seq![']']);
        assert(ballots_writable(ballots.drop_first())) by {
            assert forall|j: int| 0 <= j < ballots.drop_first().len() implies (
            #[trigger] ballots.drop_first()[j]).time.written() is Some by {
                assert(ballots.drop_first()[j] == ballots[j + 1]);
            }
        }
        lemma_ballots_read_back(text, next, ballots.drop_first(), seen.push(ballots[0]), false);
        assert(seen.push(ballots[0]) + ballots.drop_first() =~= seen + ballots);
    }
}

/// A bucket is read back as it was written.
pub proof fn lemma_bucket_read_back(text: Seq<char>, pos: int, ballots: Seq<Ballot>)
    requires
        ballots_writable(ballots),
        has_at(text, pos, bucket_text(ballots)),
    ensures
        bucket_at(text, pos) == Some((ballots, pos + bucket_text(ballots).len())),
{
    let inner = ballots_text(ballots, true);
    assert(bucket_text(ballots) =~= seq!['['] + (inner + seq![']']));
    lemma_has_at_concat(text, pos, seq!['['], inner + seq![']']);
    assert(text.subrange(pos, pos + 1)[0] == '[');
    lemma_ballots_read_back(text, pos + 1, ballots, Seq::empty(), true);
    assert(Seq::<Ballot>::empty() + ballots =~= ballots);
}

/// Whether every instant of every bucket can be written.
pub open spec fn buckets_writable(buckets: Seq<Seq<Ballot>>) -> bool {
    forall|i: int| 0 <= i < buckets.len() ==> ballots_writable(#[trigger] buckets[i])
}

/// The buckets of a list that is closed by its bracket are read back as they
/// were written.
pub proof fn lemma_buckets_read_back(
    text: Seq<char>,
    pos: int,
    buckets: Seq<Seq<Ballot>>,
    seen: Seq<Seq<Ballot>>,
    first: bool,
)
    requires
        buckets_writable(buckets),
        has_at(text, pos, buckets_text(buckets, first) + seq![']']),
    ensures
        buckets_at(text, pos, seen, first) == Some(
            (seen + buckets, pos + buckets_text(buckets, first).len() + 1),
        ),
    decreases buckets.len(),
{
    let whole = buckets_text(buckets, first);
    lemma_has_at_concat(text, pos, whole, seq![']']);
    if buckets.len() == 0 {
        assert(text.subrange(pos, pos + 1)[0] == ']');
        assert(seen + buckets =~= seen);
    } else {
        let item = bucket_text(buckets[0]);
        let rest = buckets_text(buckets.drop_first(), false);
        let lead = separator(first);
        assert(whole == lead + item + rest);
        lemma_has_at_concat(text, pos, lead + item, rest);
        lemma_has_at_concat(text, pos, lead, item);
        assert(text.subrange(pos, pos + (lead + item).len())[0] == (lead + item)[0]);
        assert(ballots_writable(buckets[0]));
        lemma_bucket_read_back(text, pos + lead.len(), buckets[0]);
        let next = pos + lead.len() + item.len();
        lemma_has_at_concat(text, next, rest, seq![']']);
        assert(buckets_writable(buckets.drop_first())) by {
            assert forall|i: int| 0 <= i < buckets.drop_first().len() implies ballots_writable(
                #[trigger] buckets.drop_first()[i],
            ) by {
                assert(buckets.drop_first()[i] == buckets[i + 1]);
            }
        }
        lemma_buckets_read_back(text, next, buckets.drop_first(), seen.push(buckets[0]), false);
        assert(seen.push(buckets[0]) + buckets.drop_first() =~= seen + buckets);
    }
}

/// The tally that a text holds from its first character to its last.
#[verifier::opaque]
pub open spec fn record_at(text: Seq<char>) -> Option<TallyView> {
    if !has_at(text, 0, votes_open()) {
        None
    } else {
        match buckets_at(text, votes_open().len() as int, Seq::empty(), true) {
            None => None,
            Some((buckets, behind)) => if !has_at(text, behind, lastupdate_key()) {
                None
            } else {
                match stamp_at(text, behind + lastupdate_key().len(), ended_key()) {
                    None => None,
                    Some((lastupdate, next)) => if has_at(text, next, flag_close(true)) && next
                        + flag_close(true).len() == text.len() {
                        Some(TallyView { buckets, lastupdate, ended: true })
                    } else if has_at(text, next, flag_close(false)) && next + flag_close(
                        false,
                    ).len() == text.len() {
                        Some(TallyView { buckets, lastupdate, ended: false })
                    } else {
                        None
                    },
                }
            },
        }
    }
}

/// Reads the tally that a text holds.
fn read_record(input: &Vec<char>) -> (found: Option<Tally>)
    ensures
        match found {
            Some(tally) => record_at(input@) == Some(tally@),
            None => record_at(input@) is None,
        },
{
    proof {
        reveal(record_at);
        reveal_strlit("{\"votes\":[");
        reveal_strlit(",\"lastupdate\":\"");
        reveal_strlit("\",\"isended\":");
        reveal_strlit("true}");
        reveal_strlit("false}");
        assert("{\"votes\":["@ =~= votes_open());
        assert(",\"lastupdate\":\""@ =~= lastupdate_key());
        assert("\",\"isended\":"@ =~= ended_key());
        assert("true}"@ =~= flag_close(true));
        assert("false}"@ =~= flag_close(false));
    }
    let limit = input.len();
    if !stands_at(input, 0, "{\"votes\":[") {
        return None;
    }
    let (votes, behind) = match read_buckets(input, 10) {
        Some(read) => read,
        None => {
            return None;
        },
    };
    if !stands_at(input, behind, ",\"lastupdate\":\"") {
        return None;
    }
    assert(behind + 15 <= limit);
    let (lastupdate, next) = match read_stamp(input, behind + 15, "\",\"isended\":") {
        Some(read) => read,
        None => {
            return None;
        },
    };
    let isended = if stands_at(input, next, "true}") && limit - next == 5 {
        true
    } else if stands_at(input, next, "false}") && limit - next == 6 {
        false
    } else {
        return None;
    };
    let tally = Tally { votes, lastupdate, isended };
    assert(tally@.buckets =~= views_of(tally.votes@));
    Some(tally)
}

/// Writes the ballots of a bucket behind what `out` holds. Says whether all
/// their instants could be written; if not, what `out` holds is of no use.
fn write_ballots(out: &mut String, ballots: &Vec<Ballot>) -> (done: bool)
    ensures
        done == ballots_writable(ballots@),
        done ==> final(out)@ == old(out)@ + ballots_text(ballots@, true),
{
    proof {
        reveal_strlit("{\"id\":");
        reveal_strlit(",\"time\":\"");
        reveal_strlit("\"}");
        reveal_strlit(",");
        assert("{\"id\":"@ =~= open_id());
        assert(",\"time\":\""@ =~= time_key());
        assert("\"}"@ =~= close_ballot());
        assert(","@ =~= separator(false));
    }
    let ghost start = out@;
    let mut j: usize = 0;
    assert(ballots@.skip(0) =~= ballots@);
    assert(start + ballots_text(ballots@, true) =~= out@ + ballots_text(ballots@.skip(0), true));
    while j < ballots.len()
        invariant
            j <= ballots@.len(),
            ","@ == separator(false),
            "{\"id\":"@ == open_id(),
            ",\"time\":\""@ == time_key(),
            "\"}"@ == close_ballot(),
            start + ballots_text(ballots@, true) == out@ + ballots_text(ballots@.skip(j as int), j == 0),
            forall|k: int| 0 <= k < j ==> (#[trigger] ballots@[k]).time.written() is Some,
        decreases ballots@.len() - j,
    {
        let ballot = ballots[j];
        let time = match ballot.time.to_text() {
            Some(time) => time,
            None => {
                return false;
            },
        };
        let ghost before = out@;
        if j > 0 {
            out.append(",");
        }
        out.append("{\"id\":");
        out.append(decimal_text(ballot.id as u128).as_str());
        out.append(",\"time\":\"");
        out.append(time.as_str());
        out.append("\"}");
        proof {
            let left = ballots@.skip(j as int);
            assert(left[0] == ballot);
            assert(left.drop_first() =~= ballots@.skip(j + 1));
            assert(out@ =~= before + (separator(j == 0) + ballot_text(ballot)));
            assert(before + ballots_text(left, j == 0) =~= out@ + ballots_text(
                ballots@.skip(j + 1),
                false,
            ));
        }
        j += 1;
    }
    assert(ballots@.skip(j as int) =~= Seq::<Ballot>::empty());
    assert(out@ + Seq::<char>::empty() =~= out@);
    true
}

/// Writes a tally in the text under which it is kept, where each of its
/// instants can be written.
pub fn tally_to_json(tally: &Tally) -> (text: Option<String>)
    ensures
        match text {
            Some(written) => is_writable(tally@) && written@ == record_text(tally@),
            None => !is_writable(tally@),
        },
{
    proof {
        reveal_strlit("{\"votes\":[");
        reveal_strlit(",\"lastupdate\":\"");
        reveal_strlit("\",\"isended\":");
        reveal_strlit("true}");
        reveal_strlit("false}");
        reveal_strlit(",");
        reveal_strlit("[");
        reveal_strlit("]");
        assert("{\"votes\":["@ =~= votes_open());
        assert(",\"lastupdate\":\""@ =~= lastupdate_key());
        assert("\",\"isended\":"@ =~= ended_key());
        assert("true}"@ =~= flag_close(true));
        assert("false}"@ =~= flag_close(false));
        assert(","@ =~= separator(false));
        assert("["@ =~= seq!['[']);
        assert("]"@ =~= seq![']']);
    }
    let ghost buckets = tally@.buckets;
    let lastupdate = match tally.lastupdate.to_text() {
        Some(written) => written,
        None => {
            return None;
        },
    };
    let mut out = "{\"votes\":[".to_owned();
    let mut i: usize = 0;
    assert(buckets.skip(0) =~= buckets);
    while i < tally.votes.len()
        invariant
            buckets == tally@.buckets,
            i <= buckets.len(),
            ","@ == separator(false),
            "["@ == seq!['['],
            "]"@ == seq![']'],
            votes_open() + buckets_text(buckets, true) == out@ + buckets_text(
                buckets.skip(i as int),
                i == 0,
            ),
            forall|k: int| 0 <= k < i ==> ballots_writable(#[trigger] buckets[k]),
        decreases buckets.len() - i,
    {
        let ghost before = out@;
        if i > 0 {
            out.append(",");
        }
        out.append("[");
        let ghost opened = out@;
        if !write_ballots(&mut out, &tally.votes[i]) {
            proof {
                let bad = choose|j: int|
                    0 <= j < buckets[i as int].len() && !((#[trigger] buckets[i as int][j]).time.written() is Some);
                assert(!(tally@.buckets[i as int][bad].time.written() is Some));
            }
            return None;
        }
        out.append("]");
        proof {
            let left = buckets.skip(i as int);
            assert(left[0] == buckets[i as int]);
            assert(left.drop_first() =~= buckets.skip(i + 1));
            assert(out@ =~= before + (separator(i == 0) + bucket_text(buckets[i as int])));
            assert(before + buckets_text(left, i == 0) =~= out@ + buckets_text(
                buckets.skip(i + 1),
                false,
            ));
        }
        i += 1;
    }
    assert(buckets.skip(i as int) =~= Seq::<Seq<Ballot>>::empty());
    assert(out@ + Seq::<char>::empty() =~= out@);
    out.append("]");
    out.append(",\"lastupdate\":\"");
    out.append(lastupdate.as_str());
    out.append("\",\"isended\":");
    if tally.isended {
        out.append("true}");
    } else {
        out.append("false}");
    }
    assert(is_writable(tally@)) by {
        assert forall|a: int, b: int|
            0 <= a < tally@.buckets.len() && 0 <= b < tally@.buckets[a].len() implies (
        #[trigger] tally@.buckets[a][b]).time.written() is Some by {
            assert(ballots_writable(buckets[a]));
        }
    }
    Some(out)
}

/// Each of six parts stands in the text they make, behind the parts before
/// it.
proof fn lemma_six_parts(
    a: Seq<char>,
    b: Seq<char>,
    c: Seq<char>,
    d: Seq<char>,
    e: Seq<char>,
    f: Seq<char>,
)
    ensures
        ({
            let text = a + b + c + d + e + f;
            &&& text.len() == a.len() + b.len() + c.len() + d.len() + e.len() + f.len()
            &&& has_at(text, 0, a)
            &&& has_at(text, a.len() as int, b)
            &&& has_at(text, (a.len() + b.len()) as int, c)
            &&& has_at(text, (a.len() + b.len() + c.len()) as int, d)
            &&& has_at(text, (a.len() + b.len() + c.len() + d.len()) as int, e)
            &&& has_at(text, (a.len() + b.len() + c.len() + d.len() + e.len()) as int, f)
        }),
{
    let text = a + b + c + d + e + f;
    assert(has_at(text, 0, text)) by {
        assert(text.subrange(0, text.len() as int) =~= text);
    }
    lemma_has_at_concat(text, 0, a + b + c + d + e, f);
    lemma_has_at_concat(text, 0, a + b + c + d, e);
    lemma_has_at_concat(text, 0, a + b + c, d);
    lemma_has_at_concat(text, 0, a + b, c);
    lemma_has_at_concat(text, 0, a, b);
}

/// Behind the flag's key stands one flag, not both.
proof fn lemma_one_flag(text: Seq<char>, pos: int, flag: bool)
    requires
        has_at(text, pos, flag_close(flag)),
    ensures
        !has_at(text, pos, flag_close(!flag)),
{
    assert(text.subrange(pos, pos + flag_close(flag).len())[0] == text[pos]);
    if has_at(text, pos, flag_close(!flag)) {
        assert(text.subrange(pos, pos + flag_close(!flag).len())[0] == text[pos]);
    }
}

/// A tally that can be written is read back from its text as it was.
pub proof fn lemma_record_read_back(tally: TallyView)
    requires
        is_writable(tally),
    ensures
        record_at(record_text(tally)) == Some(tally),
{
    let votes = buckets_text(tally.buckets, true);
    let listed = votes + seq![']'];
    let updated = stamp(tally.lastupdate);
    let close = flag_close(tally.ended);
    let text = votes_open() + listed + lastupdate_key() + updated + ended_key() + close;
    assert(text =~= record_text(tally));
    lemma_six_parts(votes_open(), listed, lastupdate_key(), updated, ended_key(), close);
    let opened = votes_open().len() as int;
    let behind = opened + listed.len();
    let begun = behind + lastupdate_key().len();
    let next = begun + updated.len() + ended_key().len();
    assert(buckets_writable(tally.buckets)) by {
        assert forall|i: int| 0 <= i < tally.buckets.len() implies ballots_writable(
            #[trigger] tally.buckets[i],
        ) by {
            assert forall|j: int| 0 <= j < tally.buckets[i].len() implies (
            #[trigger] tally.buckets[i][j]).time.written() is Some by {}
        }
    }
    assert(buckets_at(text, opened, Seq::empty(), true) == Some((tally.buckets, behind))) by {
        lemma_buckets_read_back(text, opened, tally.buckets, Seq::empty(), true);
        assert(Seq::<Seq<Ballot>>::empty() + tally.buckets =~= tally.buckets);
    }
    assert(stamp_at(text, begun, ended_key()) == Some((tally.lastupdate, next))) by {
        lemma_stamp_read_back(text, begun, tally.lastupdate, ended_key());
    }
    assert(has_at(text, next, close) && next + close.len() == text.len());
    lemma_one_flag(text, next, tally.ended);
    reveal(record_at);
}

/// Whether `text` is the text of the tally `kept`: character for character
/// what is written for it.
pub open spec fn is_text_of(text: Seq<char>, kept: TallyView) -> bool {
    is_writable(kept) && record_text(kept) == text
}

/// The tally of which `text` is the text, if it is the text of any.
pub open spec fn kept_in(text: Seq<char>) -> Option<TallyView> {
    if exists|kept: TallyView| is_text_of(text, kept) {
        Some(choose|kept: TallyView| is_text_of(text, kept))
    } else {
        None
    }
}

/// No two tallies share a text.
pub proof fn lemma_text_names_one(text: Seq<char>, a: TallyView, b: TallyView)
    requires
        is_text_of(text, a),
        is_text_of(text, b),
    ensures
        a == b,
{
    lemma_record_read_back(a);
    lemma_record_read_back(b);
}

/// A tally is kept in its own text.
pub proof fn lemma_kept_in_own_text(tally: TallyView)
    requires
        is_writable(tally),
    ensures
        kept_in(record_text(tally)) == Some(tally),
{
    let text = record_text(tally);
    assert(is_text_of(text, tally));
    lemma_text_names_one(text, tally, choose|kept: TallyView| is_text_of(text, kept));
}

/// What holds the tally of a text and of no other is what is kept in it.
proof fn lemma_found_is_kept(text: Seq<char>, found: Option<TallyView>)
    requires
        found matches Some(tally) ==> is_text_of(text, tally),
        forall|kept: TallyView| is_text_of(text, kept) ==> found == Some(kept),
    ensures
        found == kept_in(text),
{
}

/// What is read from a text and written back to it is the tally whose text
/// it is.
proof fn lemma_read_is_found(text: Seq<char>, read: Option<TallyView>, found: Option<TallyView>)
    requires
        read == record_at(text),
        found == match read {
            Some(tally) => if is_text_of(text, tally) {
                Some(tally)
            } else {
                None
            },
            None => None,
        },
    ensures
        forall|kept: TallyView| is_text_of(text, kept) ==> found == Some(kept),
{
    assert forall|kept: TallyView| is_text_of(text, kept) implies found == Some(kept) by {
        lemma_record_read_back(kept);
    }
}

/// The mathematical value of a tally that may be missing.
pub open spec fn tally_view(found: Option<Tally>) -> Option<TallyView> {
    match found {
        Some(tally) => Some(tally@),
        None => None,
    }
}

/// Reads a tally from the text under which it is kept. The text that
/// `tally_to_json` writes for a tally gives that tally back, and no other
/// text gives any, be it JSON of the same meaning or not.
pub fn tally_from_json(text: &str) -> (found: Option<Tally>)
    ensures
        found matches Some(tally) ==> is_text_of(text@, tally@),
        forall|kept: TallyView|
            is_writable(kept) && #[trigger] record_text(kept) == text@ ==> (found matches Some(
                tally,
            ) && tally@ == kept),
        tally_view(found) == kept_in(text@),
{
    let input = chars_of(text);
    let read = read_record(&input);
    let ghost seen = tally_view(read);
    let found = match read {
        Some(tally) => {
            let same = match tally_to_json(&tally) {
                Some(again) => again == text.to_owned(),
                None => false,
            };
            if same {
                Some(tally)
            } else {
                None
            }
        },
        None => None,
    };
    proof {
        lemma_read_is_found(text@, seen, tally_view(found));
        lemma_found_is_kept(text@, tally_view(found));
        assert forall|kept: TallyView|
            is_writable(kept) && #[trigger] record_text(kept) == text@ implies (
        found matches Some(tally) && tally@ == kept) by {
            assert(is_text_of(text@, kept));
        }
    }
    found
}

} // verus!
