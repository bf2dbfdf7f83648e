//! The data a poll is made of: its fixed configuration, and the tally that
//! the voters fill.

use crate::clock::Timestamp;
use vstd::prelude::*;

verus! {

/// The largest number of choices a poll may offer.
pub const MAX_CHOICES: usize = 20;

/// What the creator of a poll asked for.
#[derive(Debug)]
pub struct Args {
    pub title: String,
    pub description: String,
    pub choices: Vec<String>,
    pub due: Timestamp,
    pub anonymous: bool,
    pub mask: bool,
    pub max: u8,
    pub editable: bool,
    pub duplicate: bool,
}

/// A request as a mathematical value.
pub struct ArgsView {
    pub title: Seq<char>,
    pub description: Seq<char>,
    pub choices: Seq<Seq<char>>,
    pub due: Timestamp,
    pub anonymous: bool,
    pub mask: bool,
    pub max: u8,
    pub editable: bool,
    pub duplicate: bool,
}

impl View for Args {
    type V = ArgsView;

    open spec fn view(&self) -> ArgsView {
        ArgsView {
            title: self.title@,
            description: self.description@,
            choices: Seq::new(self.choices@.len(), |i: int| self.choices@[i]@),
            due: self.due,
            anonymous: self.anonymous,
            mask: self.mask,
            max: self.max,
            editable: self.editable,
            duplicate: self.duplicate,
        }
    }
}

/// A poll: the request it was created from, the identifier of the message
/// that carries it, and the identity of its creator.
#[derive(Debug)]
pub struct Poll {
    pub id: u64,
    pub owner: u64,
    pub args: Args,
}

/// One voter's commitment to one choice.
#[derive(Clone, Copy, Debug, PartialEq, Eq, Structural)]
pub struct Ballot {
    pub id: u64,
    pub time: Timestamp,
}

/// The record of a poll's votes: one bucket of ballots per choice.
#[derive(Debug)]
pub struct Tally {
    pub votes: Vec<Vec<Ballot>>,
    pub lastupdate: Timestamp,
    pub isended: bool,
}

/// A tally as a mathematical value.
pub struct TallyView {
    pub buckets: Seq<Seq<Ballot>>,
    pub lastupdate: Timestamp,
    pub ended: bool,
}

impl View for Tally {
    type V = TallyView;

    open spec fn view(&self) -> TallyView {
        TallyView {
            buckets: Seq::new(self.votes@.len(), |i: int| self.votes@[i]@),
            lastupdate: self.lastupdate,
            ended: self.isended,
        }
    }
}

/// How many ballots of `voter` a bucket holds.
pub open spec fn count_in(bucket: Seq<Ballot>, voter: u64) -> nat
    decreases bucket.len(),
{
    if bucket.len() == 0 {
        0
    } else {
        count_in(bucket.drop_last(), voter) + if bucket.last().id == voter {
            1nat
        } else {
            0nat
        }
    }
}

/// How many ballots of `voter` all the buckets hold together.
pub open spec fn total_of(buckets: Seq<Seq<Ballot>>, voter: u64) -> nat
    decreases buckets.len(),
{
    if buckets.len() == 0 {
        0
    } else {
        total_of(buckets.drop_last(), voter) + count_in(buckets.last(), voter)
    }
}

/// How many ballots all the buckets hold together.
pub open spec fn total_ballots(buckets: Seq<Seq<Ballot>>) -> nat
    decreases buckets.len(),
{
    if buckets.len() == 0 {
        0
    } else {
        total_ballots(buckets.drop_last()) + buckets.last().len()
    }
}

/// The bucket with every ballot of `voter` taken out, the others in their
/// order.
pub open spec fn without(bucket: Seq<Ballot>, voter: u64) -> Seq<Ballot>
    decreases bucket.len(),
{
    if bucket.len() == 0 {
        bucket
    } else if bucket.last().id == voter {
        without(bucket.drop_last(), voter)
    } else {
        without(bucket.drop_last(), voter).push(bucket.last())
    }
}

/// The tally a poll of `choices` choices starts from at the instant `now`:
/// every bucket empty, the poll open.
pub open spec fn fresh_view(choices: nat, now: Timestamp) -> TallyView {
    TallyView {
        buckets: Seq::new(choices, |i: int| Seq::<Ballot>::empty()),
        lastupdate: now,
        ended: false,
    }
}

impl Args {
    /// A request names at most twenty choices.
    pub open spec fn wf(&self) -> bool {
        self.choices@.len() <= MAX_CHOICES
    }
}

impl Poll {
    /// A poll offers at most twenty choices.
    pub open spec fn wf(&self) -> bool {
        self.args.wf()
    }

    /// The number of choices, fixed when the poll is created.
    pub open spec fn choice_count(&self) -> nat {
        self.args.choices@.len()
    }
}

impl TallyView {
    /// The tally belongs to a poll of `choices` choices.
    pub open spec fn fits(self, choices: nat) -> bool {
        self.buckets.len() == choices
    }

    /// No voter holds more than `max` ballots.
    pub open spec fn within_quota(self, max: u8) -> bool {
        forall|voter: u64| #[trigger] total_of(self.buckets, voter) <= max
    }

    /// No bucket holds two ballots of one voter.
    pub open spec fn single_entries(self) -> bool {
        forall|i: int, voter: u64|
            0 <= i < self.buckets.len() ==> #[trigger] count_in(self.buckets[i], voter) <= 1
    }
}

impl Tally {
    /// The tally of a poll on which nobody has acted yet.
    pub fn fresh(choices: usize, now: Timestamp) -> (t: Tally)
        ensures
            t@ == fresh_view(choices as nat, now),
    {
        let mut votes: Vec<Vec<Ballot>> = Vec::new();
        let mut i: usize = 0;
        while i < choices
            invariant
                i <= choices,
                votes@.len() == i,
                forall|k: int| 0 <= k < i ==> (#[trigger] votes@[k])@ == Seq::<Ballot>::empty(),
            decreases choices - i,
        {
            votes.push(Vec::new());
            i += 1;
        }
        let t = Tally { votes, lastupdate: now, isended: false };
        assert(t@.buckets =~= fresh_view(choices as nat, now).buckets);
        t
    }

    /// The number of buckets.
    pub fn bucket_count(&self) -> (n: usize)
        ensures
            n == self@.buckets.len(),
    {
        self.votes.len()
    }
}

/// Adding a ballot to a bucket adds one to its voter's count and leaves the
/// other voters' counts alone.
pub proof fn lemma_count_push(bucket: Seq<Ballot>, ballot: Ballot, voter: u64)
    ensures
        count_in(bucket.push(ballot), voter) == count_in(bucket, voter) + if ballot.id == voter {
            1nat
        } else {
            0nat
        },
{
    assert(bucket.push(ballot).drop_last() =~= bucket);
}

/// Taking a voter out of a bucket leaves none of that voter's ballots and
/// all of everyone else's.
pub proof fn lemma_count_without(bucket: Seq<Ballot>, gone: u64, voter: u64)
    ensures
        count_in(without(bucket, gone), voter) == if voter == gone {
            0nat
        } else {
            count_in(bucket, voter)
        },
        without(bucket, gone).len() <= bucket.len(),
    decreases bucket.len(),
{
    if bucket.len() > 0 {
        lemma_count_without(bucket.drop_last(), gone, voter);
        if bucket.last().id != gone {
            lemma_count_push(without(bucket.drop_last(), gone), bucket.last(), voter);
        }
    }
}

/// Replacing one bucket changes a voter's total by the change in that bucket.
pub proof fn lemma_total_update(
    buckets: Seq<Seq<Ballot>>,
    at: int,
    bucket: Seq<Ballot>,
    voter: u64,
)
    requires
        0 <= at < buckets.len(),
    ensures
        total_of(buckets.update(at, bucket), voter) + count_in(buckets[at], voter) == total_of(
            buckets,
            voter,
        ) + count_in(bucket, voter),
    decreases buckets.len(),
{
    let changed = buckets.update(at, bucket);
    if at == buckets.len() - 1 {
        assert(changed.drop_last() =~= buckets.drop_last());
    } else {
        assert(changed.drop_last() =~= buckets.drop_last().update(at, bucket));
        lemma_total_update(buckets.drop_last(), at, bucket, voter);
    }
}

/// Empty buckets hold nobody's ballots.
pub proof fn lemma_fresh_is_empty(choices: nat, now: Timestamp, voter: u64)
    ensures
        total_of(fresh_view(choices, now).buckets, voter) == 0,
        total_ballots(fresh_view(choices, now).buckets) == 0,
    decreases choices,
{
    if choices > 0 {
        let smaller = (choices - 1) as nat;
        assert(fresh_view(choices, now).buckets.drop_last() =~= fresh_view(smaller, now).buckets);
        lemma_fresh_is_empty(smaller, now, voter);
    }
}

} // verus!
