use pollkeeper::clock::Timestamp;
use pollkeeper::engine::{apply_action, Action, Rejection};
use pollkeeper::poll::{Args, Poll, Tally};

fn at(secs: i64) -> Timestamp {
    Timestamp::new(secs, 0)
}

fn poll(max: u8, editable: bool, duplicate: bool) -> Poll {
    Poll {
        id: 900,
        owner: 42,
        args: Args {
            title: "Lunch".to_string(),
            description: "No description".to_string(),
            choices: vec!["soup".to_string(), "salad".to_string(), "stew".to_string()],
            due: at(2_000_000_000),
            anonymous: false,
            mask: true,
            max,
            editable,
            duplicate,
        },
    }
}

fn ids(tally: &Tally, bucket: usize) -> Vec<u64> {
    tally.votes[bucket].iter().map(|b| b.id).collect()
}

#[test]
fn cast_adds_a_ballot_and_stamps_the_tally() {
    let mut p = poll(1, true, false);
    let t = Tally::fresh(3, at(100));
    let t = apply_action(&mut p, t, Action::Cast { choice: 1, voter: 7 }, at(150)).unwrap();
    assert_eq!(t.votes.len(), 3);
    assert_eq!(ids(&t, 0), Vec::<u64>::new());
    assert_eq!(ids(&t, 1), vec![7]);
    assert_eq!(t.votes[1][0].time, at(150));
    assert_eq!(t.lastupdate, at(150));
    assert!(!t.isended);
}

#[test]
fn cast_retract_cast_is_present_absent_present() {
    let mut p = poll(1, true, false);
    let t = Tally::fresh(3, at(100));
    let t = apply_action(&mut p, t, Action::Cast { choice: 2, voter: 7 }, at(110)).unwrap();
    assert_eq!(ids(&t, 2), vec![7]);
    let t = apply_action(&mut p, t, Action::Cast { choice: 2, voter: 7 }, at(120)).unwrap();
    assert_eq!(ids(&t, 2), Vec::<u64>::new());
    assert_eq!(t.lastupdate, at(110));
    let t = apply_action(&mut p, t, Action::Cast { choice: 2, voter: 7 }, at(130)).unwrap();
    assert_eq!(ids(&t, 2), vec![7]);
    assert_eq!(t.lastupdate, at(130));
}

#[test]
fn retract_leaves_other_voters_in_order() {
    let mut p = poll(1, true, false);
    let mut t = Tally::fresh(3, at(100));
    for voter in [5u64, 7, 9] {
        t = apply_action(&mut p, t, Action::Cast { choice: 0, voter }, at(110)).unwrap();
    }
    let t = apply_action(&mut p, t, Action::Cast { choice: 0, voter: 7 }, at(120)).unwrap();
    assert_eq!(ids(&t, 0), vec![5, 9]);
}

#[test]
fn cast_after_due_is_poll_closed() {
    let mut p = poll(1, true, false);
    let t = Tally::fresh(3, at(100));
    let r = apply_action(&mut p, t, Action::Cast { choice: 0, voter: 7 }, at(2_000_000_001));
    assert_eq!(r.unwrap_err(), Rejection::PollClosed);
}

#[test]
fn cast_at_the_due_instant_is_accepted() {
    let mut p = poll(1, true, false);
    let t = Tally::fresh(3, at(100));
    let r = apply_action(&mut p, t, Action::Cast { choice: 0, voter: 7 }, at(2_000_000_000));
    assert!(r.is_ok());
}

#[test]
fn cast_on_ended_poll_is_poll_closed() {
    let mut p = poll(1, true, false);
    let t = Tally::fresh(3, at(100));
    let t = apply_action(&mut p, t, Action::ToggleOpenClosed { requester: 42 }, at(110)).unwrap();
    assert!(t.isended);
    let r = apply_action(&mut p, t, Action::Cast { choice: 0, voter: 7 }, at(120));
    assert_eq!(r.unwrap_err(), Rejection::PollClosed);
}

#[test]
fn second_cast_without_editing_is_not_editable() {
    let mut p = poll(3, false, false);
    let t = Tally::fresh(3, at(100));
    let t = apply_action(&mut p, t, Action::Cast { choice: 0, voter: 7 }, at(110)).unwrap();
    let r = apply_action(&mut p, t, Action::Cast { choice: 0, voter: 7 }, at(120));
    assert_eq!(r.unwrap_err(), Rejection::NotEditable);
}

#[test]
fn cast_past_the_quota_is_quota_exceeded() {
    let mut p = poll(2, true, false);
    let t = Tally::fresh(3, at(100));
    let t = apply_action(&mut p, t, Action::Cast { choice: 0, voter: 7 }, at(110)).unwrap();
    let t = apply_action(&mut p, t, Action::Cast { choice: 1, voter: 7 }, at(120)).unwrap();
    let r = apply_action(&mut p, t, Action::Cast { choice: 2, voter: 7 }, at(130));
    assert_eq!(r.unwrap_err(), Rejection::QuotaExceeded);
}

#[test]
fn quota_of_zero_admits_nobody() {
    let mut p = poll(0, true, false);
    let t = Tally::fresh(3, at(100));
    let r = apply_action(&mut p, t, Action::Cast { choice: 0, voter: 7 }, at(110));
    assert_eq!(r.unwrap_err(), Rejection::QuotaExceeded);
}

#[test]
fn duplicates_fill_one_bucket_up_to_the_quota() {
    let mut p = poll(2, false, true);
    let t = Tally::fresh(3, at(100));
    let t = apply_action(&mut p, t, Action::Cast { choice: 1, voter: 7 }, at(110)).unwrap();
    let t = apply_action(&mut p, t, Action::Cast { choice: 1, voter: 7 }, at(120)).unwrap();
    assert_eq!(ids(&t, 1), vec![7, 7]);
    let r = apply_action(&mut p, t, Action::Cast { choice: 1, voter: 7 }, at(130));
    assert_eq!(r.unwrap_err(), Rejection::QuotaExceeded);
}

#[test]
fn bucket_count_stays_the_choice_count() {
    let mut p = poll(3, true, false);
    let mut t = Tally::fresh(3, at(100));
    for (choice, voter) in [(0u8, 1u64), (1, 1), (2, 2), (1, 1), (0, 3)] {
        t = apply_action(&mut p, t, Action::Cast { choice, voter }, at(110)).unwrap();
        assert_eq!(t.votes.len(), 3);
    }
    t = apply_action(&mut p, t, Action::ToggleOpenClosed { requester: 42 }, at(120)).unwrap();
    assert_eq!(t.votes.len(), 3);
}

#[test]
fn toggle_by_stranger_changes_nothing() {
    let mut p = poll(1, true, false);
    let t = Tally::fresh(3, at(100));
    let t = apply_action(&mut p, t, Action::ToggleOpenClosed { requester: 43 }, at(110)).unwrap();
    assert!(!t.isended);
    assert!(p.args.mask);
    assert_eq!(t.lastupdate, at(100));
}

#[test]
fn closing_lifts_the_mask_and_reopening_leaves_it_off() {
    let mut p = poll(1, true, false);
    let t = Tally::fresh(3, at(100));
    let t = apply_action(&mut p, t, Action::ToggleOpenClosed { requester: 42 }, at(110)).unwrap();
    assert!(t.isended);
    assert!(!p.args.mask);
    let t = apply_action(&mut p, t, Action::ToggleOpenClosed { requester: 42 }, at(120)).unwrap();
    assert!(!t.isended);
    assert!(!p.args.mask);
}

#[test]
fn reopening_keeps_a_mask_that_was_set() {
    let mut p = poll(1, true, false);
    let mut t = Tally::fresh(3, at(100));
    t.isended = true;
    let t = apply_action(&mut p, t, Action::ToggleOpenClosed { requester: 42 }, at(110)).unwrap();
    assert!(!t.isended);
    assert!(p.args.mask);
}

#[test]
fn rejections_are_told_in_words() {
    assert_eq!(Rejection::PollClosed.message(), "Vote already ended");
    assert_eq!(Rejection::NotEditable.message(), "This vote is not editable");
    assert_eq!(Rejection::QuotaExceeded.message(), "You already voted");
}
