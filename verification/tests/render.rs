use pollkeeper::clock::Timestamp;
use pollkeeper::poll::{Args, Ballot, Poll, Tally};
use pollkeeper::render::{count_ballots, ratio, render_snapshot};

fn poll(anonymous: bool, mask: bool) -> Poll {
    Poll {
        id: 1,
        owner: 2,
        args: Args {
            title: "Lunch".to_string(),
            description: "No description".to_string(),
            choices: vec!["soup".to_string(), "salad".to_string(), "stew".to_string()],
            due: Timestamp::new(2_000_000_000, 0),
            anonymous,
            mask,
            max: 1,
            editable: true,
            duplicate: false,
        },
    }
}

fn tally(buckets: &[&[u64]], ended: bool) -> Tally {
    let when = Timestamp::new(100, 0);
    Tally {
        votes: buckets
            .iter()
            .map(|b| b.iter().map(|&id| Ballot { id, time: when }).collect())
            .collect(),
        lastupdate: when,
        isended: ended,
    }
}

#[test]
fn ratio_is_whole_percent_rounded_down() {
    assert_eq!(ratio(1, 3), 33);
    assert_eq!(ratio(2, 3), 66);
    assert_eq!(ratio(3, 3), 100);
    assert_eq!(ratio(0, 5), 0);
    assert_eq!(ratio(1, 200), 0);
}

#[test]
fn ratio_without_ballots_is_zero() {
    assert_eq!(ratio(0, 0), 0);
    assert_eq!(ratio(7, 0), 0);
}

#[test]
fn count_ballots_adds_the_buckets() {
    assert_eq!(count_ballots(&tally(&[&[1, 2], &[], &[3]], false)), 3);
    assert_eq!(count_ballots(&tally(&[], false)), 0);
}

#[test]
fn empty_poll_shows_zero_everywhere() {
    let shown = render_snapshot(&poll(false, false), &tally(&[&[], &[], &[]], false));
    assert_eq!(shown.content, "Total vote(s): 0");
    assert_eq!(shown.fields.len(), 3);
    for (field, name) in shown.fields.iter().zip(["soup", "salad", "stew"]) {
        assert_eq!(field.name, name);
        assert_eq!(field.value, "**0 people(s), 0%**\n");
    }
    assert!(!shown.disabled);
}

#[test]
fn open_poll_shows_standing_and_voters() {
    let shown = render_snapshot(&poll(false, false), &tally(&[&[11, 12], &[], &[13]], false));
    assert_eq!(shown.content, "Total vote(s): 3");
    assert_eq!(shown.fields[0].value, "**2 people(s), 66%**\n<@11>\n<@12>\n");
    assert_eq!(shown.fields[1].value, "**0 people(s), 0%**\n");
    assert_eq!(shown.fields[2].value, "**1 people(s), 33%**\n<@13>\n");
}

#[test]
fn anonymous_poll_shows_no_voters() {
    let shown = render_snapshot(&poll(true, false), &tally(&[&[11, 12], &[], &[13]], false));
    assert_eq!(shown.fields[0].value, "**2 people(s), 66%**\n");
    assert_eq!(shown.fields[2].value, "**1 people(s), 33%**\n");
}

#[test]
fn masked_poll_shows_dashes() {
    let shown = render_snapshot(&poll(false, true), &tally(&[&[11, 12], &[], &[13]], false));
    assert_eq!(shown.content, "Total vote(s): 3");
    for field in &shown.fields {
        assert_eq!(field.value, "-");
    }
}

#[test]
fn ended_poll_switches_the_buttons_off() {
    let shown = render_snapshot(&poll(false, false), &tally(&[&[], &[], &[]], true));
    assert!(shown.disabled);
}

#[test]
fn rendering_twice_gives_the_same_snapshot() {
    let p = poll(false, false);
    let t = tally(&[&[11], &[12, 13], &[]], false);
    let a = render_snapshot(&p, &t);
    let b = render_snapshot(&p, &t);
    assert_eq!(a.content, b.content);
    assert_eq!(a.disabled, b.disabled);
    assert_eq!(a.fields.len(), b.fields.len());
    for (x, y) in a.fields.iter().zip(b.fields.iter()) {
        assert_eq!(x.name, y.name);
        assert_eq!(x.value, y.value);
    }
}

#[test]
fn ended_poll_shows_results_whatever_the_mask() {
    let shown = render_snapshot(&poll(false, true), &tally(&[&[11, 12], &[], &[13]], true));
    assert_eq!(shown.fields[0].value, "**2 people(s), 66%**\n<@11>\n<@12>\n");
    assert_eq!(shown.fields[1].value, "**0 people(s), 0%**\n");
    assert_eq!(shown.fields[2].value, "**1 people(s), 33%**\n<@13>\n");
    assert!(shown.disabled);
    let shown = render_snapshot(&poll(true, true), &tally(&[&[11, 12], &[], &[13]], true));
    assert_eq!(shown.fields[0].value, "**2 people(s), 66%**\n");
}
