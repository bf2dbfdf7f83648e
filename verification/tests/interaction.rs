use pollkeeper::clock::Timestamp;
use pollkeeper::engine::Rejection;
use pollkeeper::coordinator::{Admission, Coordinator, Phase};
use pollkeeper::interaction::{
    interaction_create, press, pressed, route, vote, Handler, Outcome, Pressed, Reply,
};
use pollkeeper::poll::{Args, Poll, Tally};
use pollkeeper::store::{load_tally, seal_tally};

fn key() -> String {
    "magickey".to_string()
}

fn at(secs: i64) -> Timestamp {
    Timestamp::new(secs, 0)
}

fn poll() -> Poll {
    Poll {
        id: 900,
        owner: 42,
        args: Args {
            title: "Lunch".to_string(),
            description: "No description".to_string(),
            choices: vec!["soup".to_string(), "salad".to_string(), "stew".to_string()],
            due: at(2_000_000_000),
            anonymous: false,
            mask: true,
            max: 1,
            editable: true,
            duplicate: false,
        },
    }
}

fn create(poll: &mut Poll, payload: &str, id: &str, actor: u64, now: i64) -> Outcome {
    let mut slots = Coordinator::new();
    interaction_create(
        poll,
        &mut slots,
        &key(),
        &payload.to_string(),
        &id.to_string(),
        actor,
        1,
        at(now),
    )
    .outcome
}

fn submit(
    poll: &mut Poll,
    slots: &mut Coordinator,
    payload: &str,
    id: &str,
    actor: u64,
    stamp: u64,
) -> Reply {
    interaction_create(
        poll,
        slots,
        &key(),
        &payload.to_string(),
        &id.to_string(),
        actor,
        stamp,
        at(1_000),
    )
}

fn published(outcome: Outcome) -> (Tally, String, Vec<String>, bool) {
    match outcome {
        Outcome::Publish { tally, payload, shown } => (
            tally,
            payload.unwrap(),
            std::iter::once(shown.content)
                .chain(shown.fields.into_iter().map(|f| f.value))
                .collect(),
            shown.disabled,
        ),
        Outcome::Reject { notice, .. } => panic!("rejected: {notice}"),
        Outcome::Malformed => panic!("malformed"),
    }
}

#[test]
fn buttons_are_told_apart_by_name() {
    assert_eq!(pressed("choice_0"), Pressed::Choice(0));
    assert_eq!(pressed("choice_19"), Pressed::Choice(19));
    assert_eq!(pressed("choice_255"), Pressed::Choice(255));
    assert_eq!(pressed("choice_choice_7"), Pressed::Choice(7));
    assert_eq!(pressed("choice_256"), Pressed::Malformed);
    assert_eq!(pressed("choice_"), Pressed::Malformed);
    assert_eq!(pressed("choice_x"), Pressed::Malformed);
    assert_eq!(pressed("toggle"), Pressed::Toggle);
    assert_eq!(pressed("toggle "), Pressed::Other);
    assert_eq!(pressed("Choice_1"), Pressed::Other);
    assert_eq!(pressed(""), Pressed::Other);
    assert_eq!(pressed("ping"), Pressed::Other);
}

#[test]
fn ping_goes_to_the_ping_and_the_rest_to_the_poll() {
    assert_eq!(route("ping"), Handler::Ping);
    assert_eq!(route("toggle"), Handler::Vote);
    assert_eq!(route("choice_1"), Handler::Vote);
    assert_eq!(route("pin"), Handler::Vote);
    assert_eq!(route("pings"), Handler::Vote);
    assert_eq!(route(""), Handler::Vote);
}

#[test]
fn first_press_starts_the_tally_and_publishes() {
    let mut p = poll();
    let (tally, payload, texts, disabled) = published(create(&mut p, "", "choice_1", 7, 1_000));
    assert_eq!(tally.votes.len(), 3);
    assert_eq!(tally.votes[1].len(), 1);
    assert_eq!(tally.votes[1][0].id, 7);
    assert_eq!(tally.lastupdate, at(1_000));
    assert_eq!(texts, vec!["Total vote(s): 1", "-", "-", "-"]);
    assert!(!disabled);
    let stored = load_tally(&key(), &payload, 3, at(5_000));
    assert_eq!(stored.votes, tally.votes);
    assert_eq!(stored.lastupdate, at(1_000));
}

#[test]
fn presses_build_on_what_is_stored() {
    let mut p = poll();
    p.args.mask = false;
    let (_, payload, _, _) = published(create(&mut p, "", "choice_1", 7, 1_000));
    let (_, payload, texts, _) = published(create(&mut p, &payload, "choice_0", 8, 1_010));
    assert_eq!(
        texts,
        vec![
            "Total vote(s): 2",
            "**1 people(s), 50%**\n<@8>\n",
            "**1 people(s), 50%**\n<@7>\n",
            "**0 people(s), 0%**\n"
        ]
    );
    let (tally, _, texts, _) = published(create(&mut p, &payload, "choice_1", 7, 1_020));
    assert_eq!(texts[0], "Total vote(s): 1");
    assert!(tally.votes[1].is_empty());
    assert_eq!(tally.lastupdate, at(1_010));
}

#[test]
fn rejected_press_is_told_to_the_voter() {
    let mut p = poll();
    let (_, payload, _, _) = published(create(&mut p, "", "choice_1", 7, 1_000));
    match create(&mut p, &payload, "choice_2", 7, 1_010) {
        Outcome::Reject { reason, notice } => {
            assert_eq!(reason, Rejection::QuotaExceeded);
            assert_eq!(notice, "Vote wasn't counted: You already voted");
        }
        _ => panic!("not rejected"),
    }
    match create(&mut p, &payload, "choice_2", 8, 2_000_000_001) {
        Outcome::Reject { reason, notice } => {
            assert_eq!(reason, Rejection::PollClosed);
            assert_eq!(notice, "Vote wasn't counted: Vote already ended");
        }
        _ => panic!("not rejected"),
    }
    p.args.editable = false;
    match create(&mut p, &payload, "choice_1", 7, 1_010) {
        Outcome::Reject { reason, notice } => {
            assert_eq!(reason, Rejection::NotEditable);
            assert_eq!(notice, "Vote wasn't counted: This vote is not editable");
        }
        _ => panic!("not rejected"),
    }
}

#[test]
fn owner_closes_the_poll_and_the_mask_is_lifted() {
    let mut p = poll();
    let (_, payload, texts, _) = published(create(&mut p, "", "choice_1", 7, 1_000));
    assert_eq!(texts[2], "-");
    let (tally, payload, texts, disabled) = published(create(&mut p, &payload, "toggle", 42, 1_010));
    assert!(tally.isended);
    assert!(disabled);
    assert!(!p.args.mask);
    assert_eq!(texts[2], "**1 people(s), 100%**\n<@7>\n");
    match create(&mut p, &payload, "choice_0", 8, 1_020) {
        Outcome::Reject { reason, .. } => assert_eq!(reason, Rejection::PollClosed),
        _ => panic!("not rejected"),
    }
    let (tally, _, _, disabled) = published(create(&mut p, &payload, "toggle", 42, 1_030));
    assert!(!tally.isended);
    assert!(!disabled);
}

#[test]
fn stranger_toggles_nothing_but_the_poll_is_published() {
    let mut p = poll();
    let (tally, _, texts, disabled) = published(create(&mut p, "", "toggle", 43, 1_000));
    assert!(!tally.isended);
    assert!(!disabled);
    assert!(p.args.mask);
    assert_eq!(texts, vec!["Total vote(s): 0", "-", "-", "-"]);
}

#[test]
fn button_of_another_name_publishes_the_tally_as_it_is() {
    let mut p = poll();
    let (_, payload, _, _) = published(create(&mut p, "", "choice_1", 7, 1_000));
    let (tally, again, texts, _) = published(create(&mut p, &payload, "refresh", 9, 1_010));
    assert_eq!(tally.votes[1][0].id, 7);
    assert_eq!(again, payload);
    assert_eq!(texts[0], "Total vote(s): 1");
}

#[test]
fn choice_that_the_poll_does_not_offer_is_malformed() {
    let mut p = poll();
    assert!(matches!(create(&mut p, "", "choice_3", 7, 1_000), Outcome::Malformed));
    assert!(matches!(create(&mut p, "", "choice_999", 7, 1_000), Outcome::Malformed));
    assert!(matches!(create(&mut p, "", "choice_x", 7, 1_000), Outcome::Malformed));
    assert!(matches!(
        create(&mut p, "", "choice_3", 7, 2_000_000_001),
        Outcome::Reject { reason: Rejection::PollClosed, .. }
    ));
}

#[test]
fn press_decides_on_the_tally_it_is_given() {
    let mut p = poll();
    let tally = Tally::fresh(3, at(500));
    let outcome = press(&mut p, &key(), tally, Pressed::Choice(2), 7, at(1_000));
    let (tally, payload, _, _) = published(outcome);
    assert_eq!(tally.votes[2][0].id, 7);
    assert_eq!(payload, seal_tally(&key(), &tally).unwrap());
}

#[test]
fn corrupt_record_starts_the_poll_afresh() {
    let mut p = poll();
    let (tally, _, texts, _) = published(create(&mut p, "garbage", "choice_0", 7, 1_000));
    assert_eq!(texts[0], "Total vote(s): 1");
    assert_eq!(tally.votes[0].len(), 1);
}

fn layout(count: usize) -> Vec<Vec<(String, String)>> {
    let choices: Vec<String> = (0..count).map(|i| format!("c{i}")).collect();
    vote(&choices)
        .into_iter()
        .map(|row| row.into_iter().map(|b| (b.label, b.custom_id)).collect())
        .collect()
}

#[test]
fn buttons_stand_five_to_a_row() {
    for count in 0..=20usize {
        let rows = layout(count);
        let expected_rows = if count == 0 { 1 } else { (count + 4) / 5 };
        assert_eq!(rows.len(), expected_rows, "{count}");
        let flat: Vec<(String, String)> = rows.iter().flatten().cloned().collect();
        assert_eq!(flat.len(), count);
        for (i, (label, id)) in flat.iter().enumerate() {
            assert_eq!(label, &format!("c{i}"));
            assert_eq!(id, &format!("choice_{i}"));
        }
        for (r, row) in rows.iter().enumerate() {
            let width = if r + 1 < rows.len() { 5 } else { count - 5 * r };
            assert_eq!(row.len(), width, "{count} {r}");
        }
    }
}

#[test]
fn seven_choices_take_two_rows() {
    let rows = layout(7);
    assert_eq!(rows.len(), 2);
    assert_eq!(rows[0].len(), 5);
    assert_eq!(rows[1].len(), 2);
    assert_eq!(rows[1][1], ("c6".to_string(), "choice_6".to_string()));
}

#[test]
fn written_buttons_are_read_as_their_choices() {
    let choices: Vec<String> = (0..20).map(|i| format!("c{i}")).collect();
    let mut next = 0u8;
    for row in vote(&choices) {
        for button in row {
            assert_eq!(pressed(&button.custom_id), Pressed::Choice(next));
            next += 1;
        }
    }
    assert_eq!(next, 20);
}

#[test]
fn ended_poll_stays_revealed_at_every_later_press() {
    let mut p = poll();
    let (_, payload, _, _) = published(create(&mut p, "", "choice_1", 7, 1_000));
    let (_, payload, _, _) = published(create(&mut p, &payload, "toggle", 42, 1_010));
    let mut again = poll();
    assert!(again.args.mask);
    let (tally, _, texts, disabled) = published(create(&mut again, &payload, "toggle", 43, 1_020));
    assert!(tally.isended);
    assert!(disabled);
    assert_eq!(
        texts,
        vec![
            "Total vote(s): 1",
            "**0 people(s), 0%**\n",
            "**1 people(s), 100%**\n<@7>\n",
            "**0 people(s), 0%**\n"
        ]
    );
    let mut again = poll();
    let (_, _, texts, _) = published(create(&mut again, &payload, "refresh", 9, 1_030));
    assert_eq!(texts[2], "**1 people(s), 100%**\n<@7>\n");
}

#[test]
fn reopened_poll_is_masked_again() {
    let mut p = poll();
    let (_, payload, _, _) = published(create(&mut p, "", "choice_1", 7, 1_000));
    let (_, payload, _, _) = published(create(&mut p, &payload, "toggle", 42, 1_010));
    let mut again = poll();
    let (tally, _, texts, _) = published(create(&mut again, &payload, "toggle", 42, 1_020));
    assert!(!tally.isended);
    assert_eq!(texts, vec!["Total vote(s): 1", "-", "-", "-"]);
}

#[test]
fn press_on_an_idle_poll_is_admitted_at_once() {
    let mut p = poll();
    let mut slots = Coordinator::new();
    let reply = submit(&mut p, &mut slots, "", "choice_1", 7, 10);
    assert!(matches!(reply.outcome, Outcome::Publish { .. }));
    assert_eq!(reply.admission, Some(Admission::Run));
    assert_eq!(slots.phase(900), Phase::Publishing);
    assert!(!slots.must_abandon(900, 10));
}

#[test]
fn second_press_supersedes_the_push_in_flight() {
    let mut p = poll();
    let mut slots = Coordinator::new();
    let first = submit(&mut p, &mut slots, "", "choice_1", 7, 10);
    assert_eq!(first.admission, Some(Admission::Run));
    let (_, payload, _, _) = published(first.outcome);

    let second = submit(&mut p, &mut slots, &payload, "choice_0", 8, 11);
    assert_eq!(second.admission, Some(Admission::Wait { evict: 10 }));
    assert_eq!(slots.phase(900), Phase::Cancelling);
    assert!(slots.must_abandon(900, 10));
    let (_, _, texts, _) = published(second.outcome);
    assert_eq!(texts[0], "Total vote(s): 2");

    assert!(slots.release(900, 10));
    assert_eq!(slots.phase(900), Phase::Idle);
    assert_eq!(slots.submit(900, 11), Admission::Run);
    assert!(!slots.must_abandon(900, 11));
    assert_eq!(slots.submit(900, 10), Admission::Superseded);
    assert!(slots.release(900, 11));
    assert!(slots.is_idle());
}

#[test]
fn press_that_is_turned_away_takes_no_slot() {
    let mut p = poll();
    let mut slots = Coordinator::new();
    let first = submit(&mut p, &mut slots, "", "choice_1", 7, 10);
    let (_, payload, _, _) = published(first.outcome);
    assert!(slots.release(900, 10));
    let rejected = submit(&mut p, &mut slots, &payload, "choice_2", 7, 11);
    assert!(matches!(rejected.outcome, Outcome::Reject { .. }));
    assert_eq!(rejected.admission, None);
    assert!(slots.is_idle());
    let malformed = submit(&mut p, &mut slots, &payload, "choice_9", 7, 12);
    assert!(matches!(malformed.outcome, Outcome::Malformed));
    assert_eq!(malformed.admission, None);
    assert!(slots.is_idle());
}

#[test]
fn presses_on_other_polls_are_admitted_side_by_side() {
    let mut p = poll();
    let mut q = poll();
    q.id = 901;
    let mut slots = Coordinator::new();
    assert_eq!(submit(&mut p, &mut slots, "", "choice_1", 7, 10).admission, Some(Admission::Run));
    assert_eq!(submit(&mut q, &mut slots, "", "choice_1", 7, 11).admission, Some(Admission::Run));
    assert!(!slots.must_abandon(900, 10));
    assert!(!slots.must_abandon(901, 11));
}
