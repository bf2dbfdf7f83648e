//! The rules by which one participant's action changes a poll's tally.

use crate::clock::Timestamp;
use crate::poll::{
    count_in, fresh_view, lemma_count_push, lemma_count_without, lemma_fresh_is_empty,
    lemma_total_update, total_of, without, Args, Ballot, Poll, Tally, TallyView,
};
use vstd::prelude::*;

verus! {

/// What a participant asks for.
#[derive(Clone, Copy, Debug, PartialEq, Eq, Structural)]
pub enum Action {
    /// Cast a ballot for a choice, or take it back.
    Cast { choice: u8, voter: u64 },
    /// Close an open poll, or open a closed one again.
    ToggleOpenClosed { requester: u64 },
}

/// Why a ballot was not counted.
#[derive(Clone, Copy, Debug, PartialEq, Eq, Structural)]
pub enum Rejection {
    PollClosed,
    NotEditable,
    QuotaExceeded,
}

/// The words in which a rejection is told to the voter.
pub open spec fn rejection_text(reason: Rejection) -> Seq<char> {
    match reason {
        Rejection::PollClosed => "Vote already ended"@,
        Rejection::NotEditable => "This vote is not editable"@,
        Rejection::QuotaExceeded => "You already voted"@,
    }
}

impl Rejection {
    /// Tells the rejection in words.
    pub fn message(&self) -> (text: String)
        ensures
            text@ == rejection_text(*self),
    {
        match self {
            Rejection::PollClosed => "Vote already ended".to_owned(),
            Rejection::NotEditable => "This vote is not editable".to_owned(),
            Rejection::QuotaExceeded => "You already voted".to_owned(),
        }
    }
}

/// A poll takes no ballots once its due instant has passed or it was ended.
pub open spec fn is_closed(due: Timestamp, ended: bool, now: Timestamp) -> bool {
    due.is_before(now) || ended
}

/// What casting for `choice` does to a tally. The checks come in this order,
/// and the first that fails decides: the poll must be open; a voter already
/// in the bucket is taken out of it where ballots may be edited, and turned
/// away where neither editing nor duplicates are allowed; the voter must have
/// a ballot left to give; then the ballot is added and the tally stamped.
pub open spec fn cast_outcome(
    poll: Poll,
    tally: TallyView,
    choice: int,
    voter: u64,
    now: Timestamp,
) -> Result<TallyView, Rejection> {
    let bucket = tally.buckets[choice];
    if is_closed(poll.args.due, tally.ended, now) {
        Err(Rejection::PollClosed)
    } else if count_in(bucket, voter) > 0 && poll.args.editable {
        Ok(TallyView { buckets: tally.buckets.update(choice, without(bucket, voter)), ..tally })
    } else if count_in(bucket, voter) > 0 && !poll.args.duplicate {
        Err(Rejection::NotEditable)
    } else if total_of(tally.buckets, voter) + 1 > poll.args.max {
        Err(Rejection::QuotaExceeded)
    } else {
        Ok(
            TallyView {
                buckets: tally.buckets.update(choice, bucket.push(Ballot { id: voter, time: now })),
                lastupdate: now,
                ended: tally.ended,
            },
        )
    }
}

/// What a toggle does to a tally: the poll's owner flips `ended`, anyone
/// else changes nothing.
pub open spec fn toggle_outcome(poll: Poll, tally: TallyView, requester: u64) -> TallyView {
    if requester == poll.owner {
        TallyView { ended: !tally.ended, ..tally }
    } else {
        tally
    }
}

/// The tally after an action, or the reason the action was turned away.
pub open spec fn action_outcome(poll: Poll, tally: TallyView, action: Action, now: Timestamp)
    -> Result<TallyView, Rejection> {
    match action {
        Action::Cast { choice, voter } => cast_outcome(poll, tally, choice as int, voter, now),
        Action::ToggleOpenClosed { requester } => Ok(toggle_outcome(poll, tally, requester)),
    }
}

/// Whether results stay hidden after an action: the owner closing the poll
/// reveals them, and nothing else touches the flag.
pub open spec fn mask_after(poll: Poll, tally: TallyView, action: Action) -> bool {
    match action {
        Action::ToggleOpenClosed { requester } => if requester == poll.owner && !tally.ended {
            false
        } else {
            poll.args.mask
        },
        Action::Cast { .. } => poll.args.mask,
    }
}

/// The poll after an action: as before, but for the mask flag.
pub open spec fn poll_after(poll: Poll, tally: TallyView, action: Action) -> Poll {
    Poll { args: Args { mask: mask_after(poll, tally, action), ..poll.args }, ..poll }
}

/// The mathematical value of what `apply_action` returns.
pub open spec fn outcome_view(result: Result<Tally, Rejection>) -> Result<TallyView, Rejection> {
    match result {
        Ok(tally) => Ok(tally@),
        Err(reason) => Err(reason),
    }
}

/// An action fits a poll when a cast names one of its choices.
pub open spec fn action_fits(action: Action, choices: nat) -> bool {
    match action {
        Action::Cast { choice, .. } => (choice as nat) < choices,
        Action::ToggleOpenClosed { .. } => true,
    }
}

/// Counts the ballots of `voter` in one bucket.
fn count_bucket(bucket: &Vec<Ballot>, voter: u64) -> (n: usize)
    ensures
        n == count_in(bucket@, voter),
{
    let mut n: usize = 0;
    let mut j: usize = 0;
    while j < bucket.len()
        invariant
            j <= bucket@.len(),
            n <= j,
            n == count_in(bucket@.take(j as int), voter),
        decreases bucket@.len() - j,
    {
        assert(bucket@.take(j + 1).drop_last() =~= bucket@.take(j as int));
        if bucket[j].id == voter {
            n += 1;
        }
        j += 1;
    }
    assert(bucket@.take(j as int) =~= bucket@);
    n
}

/// Copies a bucket, leaving out every ballot of `voter`.
fn bucket_without(bucket: &Vec<Ballot>, voter: u64) -> (kept: Vec<Ballot>)
    ensures
        kept@ == without(bucket@, voter),
{
    let mut kept: Vec<Ballot> = Vec::new();
    let mut j: usize = 0;
    while j < bucket.len()
        invariant
            j <= bucket@.len(),
            kept@ == without(bucket@.take(j as int), voter),
        decreases bucket@.len() - j,
    {
        assert(bucket@.take(j + 1).drop_last() =~= bucket@.take(j as int));
        if bucket[j].id != voter {
            kept.push(bucket[j]);
        }
        j += 1;
    }
    assert(bucket@.take(j as int) =~= bucket@);
    kept
}

/// Decides whether one more ballot would take `voter` past `max`.
fn over_quota(tally: &Tally, voter: u64, max: u8) -> (over: bool)
    ensures
        over == (total_of(tally@.buckets, voter) + 1 > max),
{
    let ghost buckets = tally@.buckets;
    let mut held: usize = 0;
    let mut i: usize = 0;
    while i < tally.votes.len()
        invariant
            buckets == tally@.buckets,
            i <= buckets.len(),
            held == total_of(buckets.take(i as int), voter),
            held <= max,
        decreases buckets.len() - i,
    {
        let here = count_bucket(&tally.votes[i], voter);
        proof {
            assert(buckets.take(i + 1).drop_last() =~= buckets.take(i as int));
            assert(buckets.take(i + 1).last() == tally.votes@[i as int]@);
            lemma_total_prefix(buckets, i + 1, voter);
        }
        if here > max as usize - held {
            return true;
        }
        held = held + here;
        i += 1;
    }
    assert(buckets.take(i as int) =~= buckets);
    held + 1 > max as usize
}

/// A voter's total over the first buckets is no more than over all of them.
pub proof fn lemma_total_prefix(buckets: Seq<Seq<Ballot>>, upto: int, voter: u64)
    requires
        0 <= upto <= buckets.len(),
    ensures
        total_of(buckets.take(upto), voter) <= total_of(buckets, voter),
    decreases buckets.len(),
{
    if upto < buckets.len() {
        assert(buckets.drop_last().take(upto) =~= buckets.take(upto));
        lemma_total_prefix(buckets.drop_last(), upto, voter);
    } else {
        assert(buckets.take(upto) =~= buckets);
    }
}

fn cast(poll: &Poll, tally: Tally, choice: u8, voter: u64, now: Timestamp) -> (result: Result<
    Tally,
    Rejection,
>)
    requires
        tally@.fits(poll.choice_count()),
        (choice as nat) < poll.choice_count(),
    ensures
        outcome_view(result) == cast_outcome(*poll, tally@, choice as int, voter, now),
{
    let mut tally = tally;
    let ghost before = tally@;
    if poll.args.due.before(&now) || tally.isended {
        return Err(Rejection::PollClosed);
    }
    let at = choice as usize;
    let here = count_bucket(&tally.votes[at], voter);
    if here > 0 {
        if poll.args.editable {
            let kept = bucket_without(&tally.votes[at], voter);
            tally.votes.set(at, kept);
            assert(tally@.buckets =~= before.buckets.update(
                at as int,
                without(before.buckets[at as int], voter),
            ));
            return Ok(tally);
        } else if !poll.args.duplicate {
            return Err(Rejection::NotEditable);
        }
    }
    if over_quota(&tally, voter, poll.args.max) {
        return Err(Rejection::QuotaExceeded);
    }
    tally.votes[at].push(Ballot { id: voter, time: now });
    tally.lastupdate = now;
    assert(tally@.buckets =~= before.buckets.update(
        at as int,
        before.buckets[at as int].push(Ballot { id: voter, time: now }),
    ));
    Ok(tally)
}

/// Applies one action to a poll's tally. A cast either yields the changed
/// tally or is turned away with its reason, and then nothing is changed. A
/// toggle always succeeds, though only the owner's toggle changes anything;
/// closing the poll also lifts the mask from its results.
pub fn apply_action(poll: &mut Poll, tally: Tally, action: Action, now: Timestamp) -> (result:
    Result<Tally, Rejection>)
    requires
        tally@.fits(old(poll).choice_count()),
        action_fits(action, old(poll).choice_count()),
    ensures
        outcome_view(result) == action_outcome(*old(poll), tally@, action, now),
        *final(poll) == poll_after(*old(poll), tally@, action),
        result matches Ok(changed) ==> changed@.fits(old(poll).choice_count()),
        final(poll).wf() == old(poll).wf(),
{
    match action {
        Action::Cast { choice, voter } => cast(poll, tally, choice, voter, now),
        Action::ToggleOpenClosed { requester } => {
            let mut tally = tally;
            if requester == poll.owner {
                tally.isended = !tally.isended;
                if tally.isended {
                    poll.args.mask = false;
                }
            }
            Ok(tally)
        },
    }
}

/// Every action leaves the tally with one bucket per choice.
pub proof fn lemma_bucket_count_kept(poll: Poll, tally: TallyView, action: Action, now: Timestamp)
    requires
        tally.fits(poll.choice_count()),
        action_fits(action, poll.choice_count()),
    ensures
        action_outcome(poll, tally, action, now) matches Ok(changed) ==> changed.fits(
            poll.choice_count(),
        ),
        poll_after(poll, tally, action).choice_count() == poll.choice_count(),
{
}

/// No action takes a voter past the poll's quota: a tally in which nobody
/// holds more than `max` ballots stays so, whether or not duplicates are
/// allowed.
pub proof fn lemma_quota_kept(poll: Poll, tally: TallyView, action: Action, now: Timestamp)
    requires
        tally.fits(poll.choice_count()),
        action_fits(action, poll.choice_count()),
        tally.within_quota(poll.args.max),
    ensures
        action_outcome(poll, tally, action, now) matches Ok(changed) ==> changed.within_quota(
            poll.args.max,
        ),
{
    if let Action::Cast { choice, voter } = action {
        if let Ok(changed) = action_outcome(poll, tally, action, now) {
            let at = choice as int;
            assert forall|other: u64| #[trigger]
                total_of(changed.buckets, other) <= poll.args.max by {
                lemma_total_update(tally.buckets, at, changed.buckets[at], other);
                lemma_count_without(tally.buckets[at], voter, other);
                lemma_count_push(tally.buckets[at], Ballot { id: voter, time: now }, other);
                assert(total_of(tally.buckets, other) <= poll.args.max);
            }
        }
    }
}

/// Where duplicates are not allowed, no action puts a second ballot of one
/// voter into a bucket.
pub proof fn lemma_single_entries_kept(
    poll: Poll,
    tally: TallyView,
    action: Action,
    now: Timestamp,
)
    requires
        tally.fits(poll.choice_count()),
        action_fits(action, poll.choice_count()),
        tally.single_entries(),
        !poll.args.duplicate,
    ensures
        action_outcome(poll, tally, action, now) matches Ok(changed) ==> changed.single_entries(),
{
    if let Action::Cast { choice, voter } = action {
        if let Ok(changed) = action_outcome(poll, tally, action, now) {
            let at = choice as int;
            assert forall|i: int, other: u64| 0 <= i < changed.buckets.len() implies #[trigger]
                count_in(changed.buckets[i], other) <= 1 by {
                assert(count_in(tally.buckets[i], other) <= 1);
                if i == at {
                    lemma_count_without(tally.buckets[at], voter, other);
                    lemma_count_push(tally.buckets[at], Ballot { id: voter, time: now }, other);
                }
            }
        }
    }
}

/// In how many buckets a voter appears.
pub open spec fn buckets_holding(buckets: Seq<Seq<Ballot>>, voter: u64) -> nat
    decreases buckets.len(),
{
    if buckets.len() == 0 {
        0
    } else {
        buckets_holding(buckets.drop_last(), voter) + if count_in(buckets.last(), voter) > 0 {
            1nat
        } else {
            0nat
        }
    }
}

/// A voter appears in no more buckets than the voter holds ballots.
pub proof fn lemma_buckets_with_voter(buckets: Seq<Seq<Ballot>>, voter: u64)
    ensures
        buckets_holding(buckets, voter) <= total_of(buckets, voter),
    decreases buckets.len(),
{
    if buckets.len() > 0 {
        lemma_buckets_with_voter(buckets.drop_last(), voter);
    }
}

/// In a tally that keeps the quota, no voter appears in more buckets than
/// the quota allows.
pub proof fn lemma_buckets_within_quota(tally: TallyView, max: u8, voter: u64)
    requires
        tally.within_quota(max),
    ensures
        buckets_holding(tally.buckets, voter) <= max,
{
    lemma_buckets_with_voter(tally.buckets, voter);
    assert(total_of(tally.buckets, voter) <= max);
}

/// A fresh tally has a bucket for each choice, keeps every quota, and holds
/// no voter twice in a bucket.
pub proof fn lemma_fresh_is_sound(choices: nat, now: Timestamp, max: u8)
    ensures
        fresh_view(choices, now).fits(choices),
        fresh_view(choices, now).within_quota(max),
        fresh_view(choices, now).single_entries(),
{
    assert forall|voter: u64| #[trigger]
        total_of(fresh_view(choices, now).buckets, voter) <= max by {
        lemma_fresh_is_empty(choices, now, voter);
    }
}

/// On an open poll whose ballots may be edited, a voter with a ballot to
/// give who casts for the same choice again and again is in the bucket after
/// the first cast, out of it after the second, and in it after the third.
pub proof fn lemma_cast_retract_cast(
    poll: Poll,
    tally: TallyView,
    choice: int,
    voter: u64,
    first: Timestamp,
    second: Timestamp,
    third: Timestamp,
)
    requires
        0 <= choice < tally.buckets.len(),
        poll.args.editable,
        !is_closed(poll.args.due, tally.ended, first),
        !is_closed(poll.args.due, tally.ended, second),
        !is_closed(poll.args.due, tally.ended, third),
        count_in(tally.buckets[choice], voter) == 0,
        total_of(tally.buckets, voter) < poll.args.max,
    ensures
        cast_outcome(poll, tally, choice, voter, first) matches Ok(one) && count_in(
            one.buckets[choice],
            voter,
        ) == 1 && (cast_outcome(poll, one, choice, voter, second) matches Ok(two) && count_in(
            two.buckets[choice],
            voter,
        ) == 0 && two.buckets == tally.buckets && (cast_outcome(poll, two, choice, voter, third)
            matches Ok(three) && count_in(three.buckets[choice], voter) == 1)),
{
    let one = cast_outcome(poll, tally, choice, voter, first)->Ok_0;
    let ballot = Ballot { id: voter, time: first };
    lemma_count_push(tally.buckets[choice], ballot, voter);
    let two = cast_outcome(poll, one, choice, voter, second)->Ok_0;
    lemma_without_absent(tally.buckets[choice], voter);
    assert(tally.buckets[choice].push(ballot).drop_last() =~= tally.buckets[choice]);
    assert(two.buckets =~= tally.buckets);
    lemma_count_push(two.buckets[choice], Ballot { id: voter, time: third }, voter);
}

/// Taking out a voter who is not in the bucket changes nothing.
pub proof fn lemma_without_absent(bucket: Seq<Ballot>, voter: u64)
    requires
        count_in(bucket, voter) == 0,
    ensures
        without(bucket, voter) == bucket,
    decreases bucket.len(),
{
    if bucket.len() > 0 {
        lemma_without_absent(bucket.drop_last(), voter);
        assert(bucket.drop_last().push(bucket.last()) =~= bucket);
    }
}

/// A toggle by anyone but the owner changes neither the tally nor the mask.
pub proof fn lemma_stranger_toggle_is_idle(
    poll: Poll,
    tally: TallyView,
    requester: u64,
    now: Timestamp,
)
    requires
        requester != poll.owner,
    ensures
        action_outcome(poll, tally, Action::ToggleOpenClosed { requester }, now) == Ok::<
            TallyView,
            Rejection,
        >(tally),
        poll_after(poll, tally, Action::ToggleOpenClosed { requester }) == poll,
{
}

/// Whenever an action leaves a poll ended that was open before, the mask
/// flag is off afterwards. That the results of an ended poll are shown at
/// every later press too is the snapshot's own rule.
pub proof fn lemma_closing_reveals(poll: Poll, tally: TallyView, action: Action, now: Timestamp)
    requires
        !tally.ended,
    ensures
        action_outcome(poll, tally, action, now) matches Ok(changed) ==> (changed.ended
            ==> !poll_after(poll, tally, action).args.mask),
{
}

} // verus!
