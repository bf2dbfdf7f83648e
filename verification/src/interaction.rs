//! What a press of a button on a poll comes to, and what is set before the
//! voters when a poll is created.

use crate::clock::Timestamp;
use crate::coordinator::{
    admission_in, after_release, after_submit, holds_in, must_abandon_in, phase_in, Admission,
    Coordinator, Phase, Slot,
};
use crate::engine::{
    action_fits, action_outcome, apply_action, is_closed, poll_after, rejection_text, Action,
    Rejection,
};
use crate::poll::{total_ballots, Poll, Tally, TallyView};
use crate::render::{field_value, render_snapshot, snapshot_of, Snapshot, SnapshotView};
use crate::scan::{
    has_at, is_digit, lemma_decimal_begins, lemma_decimal_is_digits, lemma_unsigned_read_back,
    lemma_without_absent_part, read_unsigned, remove_all, stands_at, unsigned_of, without_part,
};
use crate::store::{load_tally, loaded, seal_tally, sealed_record};
use crate::text::{chars_of, decimal, decimal_text, text_view};
use vstd::prelude::*;
use vstd::string::StringExecFns;

verus! {

/// Where the press of a button is taken.
#[derive(Clone, Copy, Debug, PartialEq, Eq, Structural)]
pub enum Handler {
    Ping,
    Vote,
}

/// The handler of a button, by the button's name: `ping` goes to the ping,
/// every other name to the poll.
pub open spec fn handler_of(custom_id: Seq<char>) -> Handler {
    if custom_id == "ping"@ {
        Handler::Ping
    } else {
        Handler::Vote
    }
}

/// Whether two texts are the same.
fn same_text(a: &str, b: &str) -> (same: bool)
    ensures
        same == (a@ == b@),
{
    let left = chars_of(a);
    if left.len() != chars_of(b).len() {
        return false;
    }
    let same = stands_at(&left, 0, b);
    proof {
        if a@ == b@ {
            assert(left@.subrange(0, b@.len() as int) =~= left@);
        }
        if same {
            assert(left@.subrange(0, b@.len() as int) =~= left@);
        }
    }
    same
}

/// Finds the handler of a button.
pub fn route(custom_id: &str) -> (handler: Handler)
    ensures
        handler == handler_of(custom_id@),
{
    if same_text(custom_id, "ping") {
        Handler::Ping
    } else {
        Handler::Vote
    }
}

/// The button of a poll that was pressed.
#[derive(Clone, Copy, Debug, PartialEq, Eq, Structural)]
pub enum Pressed {
    /// The button of a choice.
    Choice(u8),
    /// The button that ends the poll or starts it again.
    Toggle,
    /// A button of another name: nothing is asked for.
    Other,
    /// A button named as a choice, whose name gives no number from 0 to 255.
    Malformed,
}

/// The button of a name. A name that begins with `choice_` is a choice's:
/// with every `choice_` taken out it must spell the number of the choice.
pub open spec fn pressed_of(custom_id: Seq<char>) -> Pressed {
    if has_at(custom_id, 0, "choice_"@) {
        match unsigned_of(without_part(custom_id, "choice_"@), 255) {
            Some(choice) => Pressed::Choice(choice as u8),
            None => Pressed::Malformed,
        }
    } else if custom_id == "toggle"@ {
        Pressed::Toggle
    } else {
        Pressed::Other
    }
}

/// Reads the button of a name.
pub fn pressed(custom_id: &str) -> (button: Pressed)
    ensures
        button == pressed_of(custom_id@),
{
    proof {
        reveal_strlit("choice_");
    }
    let input = chars_of(custom_id);
    if stands_at(&input, 0, "choice_") {
        let number = remove_all(custom_id, "choice_");
        match read_unsigned(number.as_str(), 255) {
            Some(choice) => Pressed::Choice(choice as u8),
            None => Pressed::Malformed,
        }
    } else if same_text(custom_id, "toggle") {
        Pressed::Toggle
    } else {
        Pressed::Other
    }
}

/// What a press comes to.
#[derive(Debug)]
pub enum Outcome {
    /// The tally to go on with, the payload to store for it where it could
    /// be sealed, and the snapshot to publish.
    Publish { tally: Tally, payload: Option<String>, shown: Snapshot },
    /// The ballot was not counted; the voter alone is told why.
    Reject { reason: Rejection, notice: String },
    /// The press names no choice of this poll.
    Malformed,
}

/// What a press comes to, as a mathematical value.
pub enum OutcomeView {
    Publish { tally: TallyView, payload: Option<Seq<char>>, shown: SnapshotView },
    Reject { reason: Rejection, notice: Seq<char> },
    Malformed,
}

impl View for Outcome {
    type V = OutcomeView;

    open spec fn view(&self) -> OutcomeView {
        match self {
            Outcome::Publish { tally, payload, shown } => OutcomeView::Publish {
                tally: tally@,
                payload: text_view(*payload),
                shown: shown@,
            },
            Outcome::Reject { reason, notice } => OutcomeView::Reject {
                reason: *reason,
                notice: notice@,
            },
            Outcome::Malformed => OutcomeView::Malformed,
        }
    }
}

/// What the voter is told of a ballot that was not counted.
pub open spec fn notice_of(reason: Rejection) -> Seq<char> {
    "Vote wasn't counted: "@ + rejection_text(reason)
}

/// What is published of a poll with a tally: the tally, its payload for the
/// store, and its snapshot.
pub open spec fn published(poll: Poll, key: Seq<char>, tally: TallyView) -> OutcomeView {
    OutcomeView::Publish {
        tally,
        payload: sealed_record(key, tally),
        shown: snapshot_of(poll, tally),
    }
}

/// The action that a button asks for, if it asks for one.
pub open spec fn action_of(button: Pressed, actor: u64) -> Option<Action> {
    match button {
        Pressed::Choice(choice) => Some(Action::Cast { choice, voter: actor }),
        Pressed::Toggle => Some(Action::ToggleOpenClosed { requester: actor }),
        Pressed::Other => None,
        Pressed::Malformed => None,
    }
}

/// What a press on a poll comes to, given the tally loaded for the poll. A
/// button of another name changes nothing and publishes the tally as it is.
/// A choice that an open poll does not offer is malformed. Every other
/// press is an action: turned away, it is told to the voter; accepted, the
/// tally it gives is published.
pub open spec fn press_outcome(
    poll: Poll,
    key: Seq<char>,
    tally: TallyView,
    button: Pressed,
    actor: u64,
    now: Timestamp,
) -> OutcomeView {
    match action_of(button, actor) {
        None => if button == Pressed::Malformed {
            OutcomeView::Malformed
        } else {
            published(poll, key, tally)
        },
        Some(action) => if !action_fits(action, poll.choice_count()) {
            if is_closed(poll.args.due, tally.ended, now) {
                OutcomeView::Reject {
                    reason: Rejection::PollClosed,
                    notice: notice_of(Rejection::PollClosed),
                }
            } else {
                OutcomeView::Malformed
            }
        } else {
            match action_outcome(poll, tally, action, now) {
                Ok(changed) => published(poll_after(poll, tally, action), key, changed),
                Err(reason) => OutcomeView::Reject { reason, notice: notice_of(reason) },
            }
        },
    }
}

/// Whatever press publishes an ended tally, by whomever and on a poll with
/// whatever mask flag, the snapshot shows the results: each choice with its
/// standing, and with its voters unless the poll is anonymous.
pub proof fn lemma_ended_is_published_revealed(
    poll: Poll,
    key: Seq<char>,
    tally: TallyView,
    button: Pressed,
    actor: u64,
    now: Timestamp,
    choice: int,
)
    requires
        0 <= choice < poll.choice_count(),
    ensures
        press_outcome(poll, key, tally, button, actor, now) matches OutcomeView::Publish {
            tally: changed,
            shown,
            ..
        } ==> (changed.ended ==> shown.disabled && shown.fields[choice].1 == field_value(
            false,
            poll.args.anonymous,
            changed.buckets[choice],
            total_ballots(changed.buckets),
        )),
{
}

/// The poll after a press: as before, unless the press was an action that
/// was accepted.
pub open spec fn poll_after_press(
    poll: Poll,
    tally: TallyView,
    button: Pressed,
    actor: u64,
    now: Timestamp,
) -> Poll {
    match action_of(button, actor) {
        Some(action) => if action_fits(action, poll.choice_count()) && action_outcome(
            poll,
            tally,
            action,
            now,
        ) is Ok {
            poll_after(poll, tally, action)
        } else {
            poll
        },
        None => poll,
    }
}

/// Tells a voter why a ballot was not counted.
fn reject(reason: Rejection) -> (outcome: Outcome)
    ensures
        outcome@ == (OutcomeView::Reject { reason, notice: notice_of(reason) }),
{
    let mut notice = "Vote wasn't counted: ".to_owned();
    notice.append(reason.message().as_str());
    Outcome::Reject { reason, notice }
}

/// Seals and renders a tally for publishing.
fn publish(poll: &Poll, key: &String, tally: Tally) -> (outcome: Outcome)
    requires
        tally@.fits(poll.choice_count()),
    ensures
        outcome@ == published(*poll, key@, tally@),
{
    let payload = seal_tally(key, &tally);
    let shown = render_snapshot(poll, &tally);
    Outcome::Publish { tally, payload, shown }
}

/// Decides what the press of the button `button` by `actor` comes to, on the
/// tally loaded for the poll.
pub fn press(
    poll: &mut Poll,
    key: &String,
    tally: Tally,
    button: Pressed,
    actor: u64,
    now: Timestamp,
) -> (outcome: Outcome)
    requires
        tally@.fits(old(poll).choice_count()),
    ensures
        outcome@ == press_outcome(*old(poll), key@, tally@, button, actor, now),
        *final(poll) == poll_after_press(*old(poll), tally@, button, actor, now),
        final(poll).wf() == old(poll).wf(),
        outcome matches Outcome::Publish { tally: changed, .. } ==> changed@.fits(
            old(poll).choice_count(),
        ),
{
    let action = match button {
        Pressed::Choice(choice) => Action::Cast { choice, voter: actor },
        Pressed::Toggle => Action::ToggleOpenClosed { requester: actor },
        Pressed::Other => {
            return publish(poll, key, tally);
        },
        Pressed::Malformed => {
            return Outcome::Malformed;
        },
    };
    if let Action::Cast { choice, voter } = action {
        if choice as usize >= poll.args.choices.len() {
            if poll.args.due.before(&now) || tally.isended {
                return reject(Rejection::PollClosed);
            }
            return Outcome::Malformed;
        }
    }
    match apply_action(poll, tally, action, now) {
        Ok(changed) => publish(poll, key, changed),
        Err(reason) => reject(reason),
    }
}

/// What the press of a button on a poll comes to, given what the store
/// holds for the poll: the tally is loaded from the payload, or started
/// afresh where the payload holds none, and the press is decided on it.
pub open spec fn interaction_outcome(
    poll: Poll,
    key: Seq<char>,
    payload: Seq<char>,
    custom_id: Seq<char>,
    actor: u64,
    now: Timestamp,
) -> OutcomeView {
    press_outcome(
        poll,
        key,
        loaded(key, payload, poll.choice_count(), now),
        pressed_of(custom_id),
        actor,
        now,
    )
}

/// What a press comes to, and where its snapshot stands in the queue of
/// the poll's publications.
#[derive(Debug)]
pub struct Reply {
    pub outcome: Outcome,
    /// The answer to the submission of the snapshot, where there is a
    /// snapshot to publish.
    pub admission: Option<Admission>,
}

/// The answer to the submission that a press makes: a press that publishes
/// submits its snapshot for the poll under its stamp, and no other press
/// submits anything.
pub open spec fn admission_of(outcome: OutcomeView, slots: Map<u64, Slot>, id: u64, stamp: u64)
    -> Option<Admission> {
    if outcome is Publish {
        Some(admission_in(slots, id, stamp))
    } else {
        None
    }
}

/// The slots after a press: after the submission where the press publishes,
/// and untouched where it does not.
pub open spec fn slots_after(outcome: OutcomeView, slots: Map<u64, Slot>, id: u64, stamp: u64)
    -> Map<u64, Slot> {
    if outcome is Publish {
        after_submit(slots, id, stamp)
    } else {
        slots
    }
}

/// Decides what the press of the button named `custom_id` by `actor` comes
/// to, and submits the snapshot it gives for publication. `payload` is what
/// the store holds under the poll's key, the empty text where it holds
/// nothing; `key` is the key of the cipher; `stamp` orders this press among
/// the presses on the poll, a later press carrying a greater stamp.
///
/// The caller stores the payload, then does as the admission says: it
/// pushes the snapshot, or aborts the older push it is given, waits and
/// submits again; whatever became of the push, it releases the slot.
pub fn interaction_create(
    poll: &mut Poll,
    slots: &mut Coordinator,
    key: &String,
    payload: &String,
    custom_id: &String,
    actor: u64,
    stamp: u64,
    now: Timestamp,
) -> (reply: Reply)
    ensures
        reply.outcome@ == interaction_outcome(
            *old(poll),
            key@,
            payload@,
            custom_id@,
            actor,
            now,
        ),
        *final(poll) == poll_after_press(
            *old(poll),
            loaded(key@, payload@, old(poll).choice_count(), now),
            pressed_of(custom_id@),
            actor,
            now,
        ),
        final(poll).wf() == old(poll).wf(),
        reply.outcome matches Outcome::Publish { tally: changed, .. } ==> changed@.fits(
            old(poll).choice_count(),
        ),
        reply.admission == admission_of(reply.outcome@, old(slots)@, old(poll).id, stamp),
        final(slots)@ == slots_after(reply.outcome@, old(slots)@, old(poll).id, stamp),
{
    let tally = load_tally(key, payload, poll.args.choices.len(), now);
    let button = pressed(custom_id.as_str());
    let outcome = press(poll, key, tally, button, actor, now);
    let admission = match &outcome {
        Outcome::Publish { .. } => Some(slots.submit(poll.id, stamp)),
        _ => None,
    };
    Reply { outcome, admission }
}

/// A press that publishes while an older press on the same poll is still
/// publishing asks the older one to give way: it is told to wait for it,
/// the older one must abandon its push, and no other poll is touched. Once
/// the older press has released the slot, the poll is idle, and the newer
/// press is admitted when it submits again.
pub proof fn lemma_press_supersedes(
    outcome: OutcomeView,
    slots: Map<u64, Slot>,
    id: u64,
    older: u64,
    newer: u64,
    other: u64,
)
    requires
        outcome is Publish,
        holds_in(slots, id, older),
        older < newer,
        other != id,
    ensures
        admission_of(outcome, slots, id, newer) == Some(Admission::Wait { evict: older }),
        must_abandon_in(slots_after(outcome, slots, id, newer), id, older),
        holds_in(slots_after(outcome, slots, id, newer), id, older),
        phase_in(slots_after(outcome, slots, id, newer), other) == phase_in(slots, other),
        phase_in(after_release(slots_after(outcome, slots, id, newer), id, older), id)
            == Phase::Idle,
        admission_in(after_release(slots_after(outcome, slots, id, newer), id, older), id, newer)
            == Admission::Run,
{
}

/// A press that does not publish leaves every slot as it was, and a press
/// on an idle poll that publishes takes the poll's slot and is admitted at
/// once.
pub proof fn lemma_press_takes_free_slot(
    outcome: OutcomeView,
    slots: Map<u64, Slot>,
    id: u64,
    stamp: u64,
)
    ensures
        !(outcome is Publish) ==> slots_after(outcome, slots, id, stamp) == slots && admission_of(
            outcome,
            slots,
            id,
            stamp,
        ) is None,
        outcome is Publish && phase_in(slots, id) == Phase::Idle ==> admission_of(
            outcome,
            slots,
            id,
            stamp,
        ) == Some(Admission::Run) && holds_in(slots_after(outcome, slots, id, stamp), id, stamp)
            && !must_abandon_in(slots_after(outcome, slots, id, stamp), id, stamp),
{
}

/// A button as it is set before the voters.
#[derive(Debug)]
pub struct Button {
    pub label: String,
    pub custom_id: String,
}

/// The name of the button of a choice.
pub open spec fn choice_id(choice: nat) -> Seq<char> {
    "choice_"@ + decimal(choice)
}

/// The button that is written for a choice is read as the button of that
/// choice.
pub proof fn lemma_choice_button_reads_back(choice: u8)
    ensures
        pressed_of(choice_id(choice as nat)) == Pressed::Choice(choice),
{
    reveal_strlit("choice_");
    let lead = "choice_"@;
    let number = decimal(choice as nat);
    let name = choice_id(choice as nat);
    assert(has_at(name, 0, lead)) by {
        assert(name.subrange(0, lead.len() as int) =~= lead);
    }
    assert(name.skip(lead.len() as int) =~= number);
    lemma_decimal_is_digits(choice as nat);
    assert forall|i: int| 0 <= i < number.len() implies #[trigger] number[i] != lead[0] by {
        assert(is_digit(number[i]));
    }
    lemma_without_absent_part(number, lead);
    lemma_unsigned_read_back(choice as u64, 255);
    lemma_decimal_begins(choice as nat);
}

/// The most buttons in a row.
pub const ROW_WIDTH: usize = 5;

/// The number of rows that the buttons of `choices` choices take: five to a
/// row, and one row even for none.
pub open spec fn row_count(choices: nat) -> nat {
    if choices == 0 {
        1
    } else {
        ((choices + 4) / 5) as nat
    }
}

/// The number of buttons in a row.
pub open spec fn row_width(choices: nat, row: nat) -> nat {
    if choices - 5 * row >= 5 {
        5
    } else if choices - 5 * row >= 0 {
        (choices - 5 * row) as nat
    } else {
        0
    }
}

/// Lays out the buttons of the choices: in rows of five, in the order of
/// the choices, each named by the number of its choice.
pub fn vote(choices: &Vec<String>) -> (rows: Vec<Vec<Button>>)
    ensures
        rows@.len() == row_count(choices@.len()),
        forall|r: int|
            0 <= r < rows@.len() ==> (#[trigger] rows@[r])@.len() == row_width(
                choices@.len(),
                r as nat,
            ),
        forall|r: int, c: int|
            0 <= r < rows@.len() && 0 <= c < rows@[r]@.len() ==> (#[trigger] rows@[r]@[c]).label@
                == choices@[5 * r + c]@ && rows@[r]@[c].custom_id@ == choice_id(
                (5 * r + c) as nat,
            ),
{
    let mut rows: Vec<Vec<Button>> = Vec::new();
    let count = choices.len();
    if count == 0 {
        rows.push(Vec::new());
        return rows;
    }
    let mut start: usize = 0;
    while start < count
        invariant
            count == choices@.len(),
            0 < count,
            start <= count,
            start == 5 * rows@.len() || start == count,
            rows@.len() == (start + 4) / 5,
            forall|r: int|
                0 <= r < rows@.len() ==> (#[trigger] rows@[r])@.len() == row_width(
                    count as nat,
                    r as nat,
                ),
            forall|r: int, c: int|
                0 <= r < rows@.len() && 0 <= c < rows@[r]@.len() ==> (
                #[trigger] rows@[r]@[c]).label@ == choices@[5 * r + c]@ && rows@[r]@[c].custom_id@
                    == choice_id((5 * r + c) as nat),
        decreases count - start,
    {
        let end: usize = if count - start >= ROW_WIDTH {
            start + ROW_WIDTH
        } else {
            count
        };
        let mut row: Vec<Button> = Vec::new();
        let mut i: usize = start;
        while i < end
            invariant
                count == choices@.len(),
                start <= i <= end <= count,
                row@.len() == i - start,
                forall|c: int|
                    0 <= c < row@.len() ==> (#[trigger] row@[c]).label@ == choices@[start + c]@
                        && row@[c].custom_id@ == choice_id((start + c) as nat),
            decreases end - i,
        {
            let mut custom_id = "choice_".to_owned();
            custom_id.append(decimal_text(i as u128).as_str());
            row.push(Button { label: choices[i].clone(), custom_id });
            i += 1;
        }
        rows.push(row);
        start = end;
    }
    rows
}

} // verus!
