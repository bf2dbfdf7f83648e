use pollkeeper::clock::{Timestamp, LAST_SECOND, RETENTION_SECS};
use pollkeeper::poll::Args;
use pollkeeper::request::{
    help, init, parse_request, parser, request_of, vote_help, Matched, Refusal,
};

fn now() -> Timestamp {
    Timestamp::new(1_700_000_000, 5)
}

fn parse(msg: &str) -> Result<Args, Refusal> {
    parser(&init(), &msg.to_string(), now())
}

fn told(result: Result<Args, Refusal>) -> String {
    match result {
        Err(Refusal::Told(why)) => why,
        Err(_) => panic!("refused without a word"),
        Ok(_) => panic!("accepted"),
    }
}

fn strings(texts: &[&str]) -> Vec<String> {
    texts.iter().map(|t| t.to_string()).collect()
}

#[test]
fn plain_request_takes_the_defaults() {
    let args = parse("!vote Lunch soup salad").unwrap();
    assert_eq!(args.title, "Lunch");
    assert_eq!(args.description, "No description");
    assert_eq!(args.choices, strings(&["soup", "salad"]));
    assert_eq!(args.due, Timestamp::new(1_700_000_000 + RETENTION_SECS, 5));
    assert!(!args.anonymous);
    assert!(!args.mask);
    assert_eq!(args.max, 1);
    assert!(args.editable);
    assert!(!args.duplicate);
}

#[test]
fn options_are_read_wherever_they_stand() {
    let args =
        parse("!vote -a Lunch -d tasty soup -x 3 --mask salad -t 2030-01-02T03:04:05+01:00 stew -n")
            .unwrap();
    assert_eq!(args.title, "Lunch");
    assert_eq!(args.description, "tasty");
    assert_eq!(args.choices, strings(&["soup", "salad", "stew"]));
    assert_eq!(args.due, Timestamp::new(1_893_549_845, 0));
    assert!(args.anonymous);
    assert!(args.mask);
    assert_eq!(args.max, 3);
    assert!(!args.editable);
    assert!(!args.duplicate);
}

#[test]
fn duplicates_switch_editing_off() {
    let args = parse("!vote -p Lunch soup salad").unwrap();
    assert!(args.duplicate);
    assert!(!args.editable);
    let args = parse("!vote --duplicate --noedit Lunch soup salad").unwrap();
    assert!(args.duplicate);
    assert!(!args.editable);
}

#[test]
fn words_are_split_at_any_white_space() {
    let args = parse("  !vote\tLunch\n soup   salad ").unwrap();
    assert_eq!(args.title, "Lunch");
    assert_eq!(args.choices, strings(&["soup", "salad"]));
}

#[test]
fn too_few_words_are_told() {
    assert_eq!(told(parse("!vote")), "Not enough params");
    assert_eq!(told(parse("!vote Lunch")), "Not enough params");
    assert_eq!(told(parse("!vote Lunch soup")), "Not enough params");
    assert_eq!(told(parse("!vote -a -m Lunch soup")), "Not enough params");
}

#[test]
fn twenty_choices_are_accepted_and_twenty_one_told() {
    let mut msg = "!vote Lunch".to_string();
    for i in 0..20 {
        msg.push_str(&format!(" c{i}"));
    }
    let args = parse(&msg).unwrap();
    assert_eq!(args.choices.len(), 20);
    assert_eq!(args.choices[19], "c19");
    msg.push_str(" c20");
    assert_eq!(told(parse(&msg)), "Too many choices");
}

#[test]
fn refusal_of_the_options_is_told_in_its_own_words() {
    assert_eq!(told(parse("!vote -z Lunch soup salad")), "Request parse error: Unrecognized option: 'z'");
    assert_eq!(
        told(parse("!vote Lunch soup salad -d")),
        "Request parse error: Argument to option 'd' missing"
    );
    assert_eq!(
        told(parse("!vote -a -a Lunch soup salad")),
        "Request parse error: Option 'anonymous' given more than once"
    );
}

#[test]
fn request_without_a_word_has_no_command() {
    assert!(matches!(parse(""), Err(Refusal::NoCommand)));
    assert!(matches!(parse(" \t\n"), Err(Refusal::NoCommand)));
}

#[test]
fn unreadable_date_is_refused() {
    assert!(matches!(parse("!vote -t tomorrow Lunch soup salad"), Err(Refusal::DateUnreadable)));
    assert!(matches!(parse("!vote -t 2030-01-02 Lunch soup salad"), Err(Refusal::DateUnreadable)));
}

#[test]
fn unreadable_quota_is_refused() {
    assert!(matches!(parse("!vote -x many Lunch soup salad"), Err(Refusal::MaxUnreadable)));
    assert!(matches!(parse("!vote -x 256 Lunch soup salad"), Err(Refusal::MaxUnreadable)));
    assert!(matches!(parse("!vote -x -1 Lunch soup salad"), Err(Refusal::MaxUnreadable)));
    assert_eq!(parse("!vote -x 255 Lunch soup salad").unwrap().max, 255);
    assert_eq!(parse("!vote -x 0 Lunch soup salad").unwrap().max, 0);
    assert_eq!(parse("!vote -x +7 Lunch soup salad").unwrap().max, 7);
}

#[test]
fn checks_come_in_their_order() {
    assert_eq!(told(parse("!vote -t tomorrow -x many Lunch soup")), "Not enough params");
    assert!(matches!(
        parse("!vote -t tomorrow -x many Lunch soup salad"),
        Err(Refusal::DateUnreadable)
    ));
    let mut crowded = "!vote -x many Lunch".to_string();
    for i in 0..21 {
        crowded.push_str(&format!(" c{i}"));
    }
    assert_eq!(told(parse(&crowded)), "Too many choices");
    let mut undated = "!vote -t tomorrow Lunch".to_string();
    for i in 0..21 {
        undated.push_str(&format!(" c{i}"));
    }
    assert!(matches!(parse(&undated), Err(Refusal::DateUnreadable)));
}

#[test]
fn default_due_must_be_on_the_calendar() {
    let late = Timestamp::new(LAST_SECOND, 0);
    let result = parser(&init(), &"!vote Lunch soup salad".to_string(), late);
    assert!(matches!(result, Err(Refusal::DueOutOfRange)));
    let result =
        parser(&init(), &"!vote -t 2030-01-02T03:04:05Z Lunch soup salad".to_string(), late);
    assert!(matches!(result, Err(Refusal::DueOutOfRange)));
    let result = parser(&init(), &"!vote Lunch soup".to_string(), late);
    assert_eq!(told(result), "Not enough params");
}

#[test]
fn parse_request_declares_the_options_itself() {
    let args = parse_request(&"!vote -m Lunch soup salad".to_string(), now()).unwrap();
    assert!(args.mask);
    assert_eq!(args.choices, strings(&["soup", "salad"]));
}

#[test]
fn request_of_a_refusal_is_told() {
    let result = request_of(Err("no".to_string()), now());
    assert_eq!(told(result), "Request parse error: no");
}

#[test]
fn request_of_what_was_matched() {
    let matched = Matched {
        free: strings(&["Lunch", "soup", "salad"]),
        description: None,
        due: Some(String::new()),
        max: Some("2".to_string()),
        anonymous: true,
        mask: false,
        noedit: false,
        duplicate: false,
    };
    let args = request_of(Ok(matched), now()).unwrap();
    assert_eq!(args.due, Timestamp::new(1_700_000_000 + RETENTION_SECS, 5));
    assert_eq!(args.max, 2);
    assert!(args.anonymous);
    assert!(args.editable);
}

#[test]
fn help_lists_the_options() {
    let text = help(&init(), &"!".to_string());
    assert_eq!(
        text,
        "!vote\n\nOptions:\n\
         \x20   -d, --description DESCRIPTION\n\
         \x20                       set description\n\
         \x20   -t, --due RFC3339   set due time/date\n\
         \x20   -x, --max NUM       Max vote\n\
         \x20   -a, --anonymous     anonymous vote\n\
         \x20   -m, --mask          Mask vote status\n\
         \x20   -n, --noedit        Disable editing vote\n\
         \x20   -p, --duplicate     Allow duplicate vote\n"
    );
}

#[test]
fn vote_help_declares_the_options_itself() {
    assert_eq!(vote_help(&"!".to_string()), help(&init(), &"!".to_string()));
    assert!(vote_help(&"~".to_string()).starts_with("~vote\n\nOptions:\n    -d, --description"));
}
