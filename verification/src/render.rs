//! The snapshot of a poll that its readers are shown.

use crate::poll::{total_ballots, Ballot, Poll, Tally, TallyView};
use crate::text::{decimal, decimal_text};
use vstd::prelude::*;
use vstd::string::StringExecFns;

verus! {

/// One choice as it is shown: its label, and what is told of its votes.
#[derive(Debug)]
pub struct Field {
    pub name: String,
    pub value: String,
}

/// What is shown of a poll: a line above it, one field per choice, and
/// whether the buttons for the choices are switched off.
#[derive(Debug)]
pub struct Snapshot {
    pub content: String,
    pub fields: Vec<Field>,
    pub disabled: bool,
}

/// The share of a bucket in all ballots, in whole percent, rounded down;
/// zero while there are no ballots.
pub open spec fn ratio_of(size: nat, total: nat) -> nat {
    if total == 0 {
        0
    } else {
        size * 100 / total
    }
}

/// The voters of a bucket, one mention per line, in the order they voted.
pub open spec fn mentions(bucket: Seq<Ballot>) -> Seq<char>
    decreases bucket.len(),
{
    if bucket.len() == 0 {
        Seq::empty()
    } else {
        mentions(bucket.drop_last()) + "<@"@ + decimal(bucket.last().id as nat) + ">\n"@
    }
}

/// The count and share of a bucket.
pub open spec fn standing(size: nat, total: nat) -> Seq<char> {
    "**"@ + decimal(size) + " people(s), "@ + decimal(ratio_of(size, total)) + "%**\n"@
}

/// What is told of one choice: a dash while results are masked, else the
/// bucket's standing, followed by its voters unless the poll is anonymous.
pub open spec fn field_value(mask: bool, anonymous: bool, bucket: Seq<Ballot>, total: nat) -> Seq<
    char,
> {
    if mask {
        "-"@
    } else if anonymous {
        standing(bucket.len(), total)
    } else {
        standing(bucket.len(), total) + mentions(bucket)
    }
}

/// The line above the poll.
pub open spec fn headline(total: nat) -> Seq<char> {
    "Total vote(s): "@ + decimal(total)
}

/// Computes `ratio_of`. With no ballots at all the share is zero.
pub fn ratio(size: u128, total: u128) -> (r: u128)
    requires
        size * 100 <= u128::MAX,
    ensures
        r == ratio_of(size as nat, total as nat),
        total == 0 ==> r == 0,
{
    if total == 0 {
        0
    } else {
        size * 100 / total
    }
}

/// Counts all ballots of a tally.
pub fn count_ballots(tally: &Tally) -> (total: u128)
    ensures
        total == total_ballots(tally@.buckets),
{
    let ghost buckets = tally@.buckets;
    let mut total: u128 = 0;
    let mut i: usize = 0;
    while i < tally.votes.len()
        invariant
            buckets == tally@.buckets,
            i <= buckets.len(),
            total == total_ballots(buckets.take(i as int)),
            total <= i * 0xFFFF_FFFF_FFFF_FFFF,
        decreases buckets.len() - i,
    {
        proof {
            assert(buckets.take(i + 1).drop_last() =~= buckets.take(i as int));
            assert(buckets.take(i + 1).last() == tally.votes@[i as int]@);
        }
        total = total + tally.votes[i].len() as u128;
        i += 1;
    }
    assert(buckets.take(i as int) =~= buckets);
    total
}

/// Writes the voters of a bucket.
fn mentions_text(bucket: &Vec<Ballot>) -> (text: String)
    ensures
        text@ == mentions(bucket@),
{
    let mut text = String::new();
    let mut j: usize = 0;
    while j < bucket.len()
        invariant
            j <= bucket@.len(),
            text@ == mentions(bucket@.take(j as int)),
        decreases bucket@.len() - j,
    {
        assert(bucket@.take(j + 1).drop_last() =~= bucket@.take(j as int));
        let id = decimal_text(bucket[j].id as u128);
        text.append("<@");
        text.append(id.as_str());
        text.append(">\n");
        j += 1;
    }
    assert(bucket@.take(j as int) =~= bucket@);
    text
}

/// Writes what is told of one choice.
fn field_text(mask: bool, anonymous: bool, bucket: &Vec<Ballot>, total: u128) -> (text: String)
    ensures
        text@ == field_value(mask, anonymous, bucket@, total as nat),
{
    if mask {
        return "-".to_owned();
    }
    let size = bucket.len() as u128;
    let share = ratio(size, total);
    let mut text = "**".to_owned();
    text.append(decimal_text(size).as_str());
    text.append(" people(s), ");
    text.append(decimal_text(share).as_str());
    text.append("%**\n");
    if !anonymous {
        text.append(mentions_text(bucket).as_str());
    }
    text
}

/// A snapshot as a mathematical value: the line above the poll, for each
/// choice its label and what is told of it, and whether the buttons are
/// switched off.
pub struct SnapshotView {
    pub content: Seq<char>,
    pub fields: Seq<(Seq<char>, Seq<char>)>,
    pub disabled: bool,
}

impl View for Snapshot {
    type V = SnapshotView;

    open spec fn view(&self) -> SnapshotView {
        SnapshotView {
            content: self.content@,
            fields: Seq::new(
                self.fields@.len(),
                |i: int| (self.fields@[i].name@, self.fields@[i].value@),
            ),
            disabled: self.disabled,
        }
    }
}

/// Whether the results of a poll are hidden: the poll asks for the mask and
/// is not ended. An ended poll always shows its results.
pub open spec fn is_masked(poll: Poll, tally: TallyView) -> bool {
    poll.args.mask && !tally.ended
}

/// What is shown of a poll with a tally: the number of all ballots above,
/// the choices in their order, and the buttons switched off once the poll
/// is ended.
pub open spec fn snapshot_of(poll: Poll, tally: TallyView) -> SnapshotView {
    SnapshotView {
        content: headline(total_ballots(tally.buckets)),
        fields: Seq::new(
            poll.choice_count(),
            |i: int|
                (
                    poll.args.choices@[i]@,
                    field_value(
                        is_masked(poll, tally),
                        poll.args.anonymous,
                        tally.buckets[i],
                        total_ballots(tally.buckets),
                    ),
                ),
        ),
        disabled: tally.ended,
    }
}

/// Renders a poll and its tally. The same poll and tally always give the
/// same snapshot.
pub fn render_snapshot(poll: &Poll, tally: &Tally) -> (shown: Snapshot)
    requires
        tally@.fits(poll.choice_count()),
    ensures
        shown@ == snapshot_of(*poll, tally@),
{
    let total = count_ballots(tally);
    let mask = poll.args.mask && !tally.isended;
    let mut content = "Total vote(s): ".to_owned();
    content.append(decimal_text(total).as_str());
    let mut fields: Vec<Field> = Vec::new();
    let mut i: usize = 0;
    while i < poll.args.choices.len()
        invariant
            tally@.fits(poll.choice_count()),
            i <= poll.choice_count(),
            fields@.len() == i,
            total == total_ballots(tally@.buckets),
            mask == is_masked(*poll, tally@),
            forall|k: int|
                0 <= k < i ==> (#[trigger] fields@[k]).name@ == poll.args.choices@[k]@,
            forall|k: int|
                0 <= k < i ==> (#[trigger] fields@[k]).value@ == field_value(
                    mask,
                    poll.args.anonymous,
                    tally@.buckets[k],
                    total as nat,
                ),
        decreases poll.choice_count() - i,
    {
        let name = poll.args.choices[i].clone();
        let value = field_text(mask, poll.args.anonymous, &tally.votes[i], total);
        fields.push(Field { name, value });
        i += 1;
    }
    let shown = Snapshot { content, fields, disabled: tally.isended };
    assert(shown@.fields =~= snapshot_of(*poll, tally@).fields);
    shown
}

/// Every snapshot of an ended poll shows the results, whatever the poll's
/// mask flag says and whichever press the snapshot is made for: each choice
/// is shown with its standing, and with its voters unless the poll is
/// anonymous.
pub proof fn lemma_ended_poll_is_revealed(poll: Poll, tally: TallyView, choice: int)
    requires
        tally.ended,
        0 <= choice < poll.choice_count(),
    ensures
        !is_masked(poll, tally),
        snapshot_of(poll, tally).fields[choice].1 == field_value(
            false,
            poll.args.anonymous,
            tally.buckets[choice],
            total_ballots(tally.buckets),
        ),
        snapshot_of(poll, tally).disabled,
{
}

/// While nobody has voted, every choice that is shown unmasked stands at
/// zero people and zero percent.
pub proof fn lemma_no_ballots_no_share(mask: bool, anonymous: bool, bucket: Seq<Ballot>)
    requires
        !mask,
        bucket.len() == 0,
    ensures
        field_value(mask, anonymous, bucket, 0) == "**"@ + decimal(0) + " people(s), "@ + decimal(0)
            + "%**\n"@,
        forall|size: nat| ratio_of(size, 0) == 0,
{
    assert(mentions(bucket) =~= Seq::<char>::empty());
    assert(standing(0, 0) + Seq::<char>::empty() =~= standing(0, 0));
}

} // verus!
