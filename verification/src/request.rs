//! The request a poll is created from: a command line of options, a title
//! and the choices.

use crate::clock::{rfc3339_instant, Timestamp};
use crate::poll::{Args, ArgsView, MAX_CHOICES};
use crate::scan::{read_unsigned, split_words, unsigned_of, views, words};
use crate::text::text_view;
use vstd::prelude::*;
use vstd::string::StringExecFns;

verus! {

/// The options of `getopts`, which verified code only hands on.
#[verifier::external_type_specification]
#[verifier::external_body]
pub struct ExOptions(getopts::Options);

/// The options that a set of `getopts` options declares, in the order they
/// were declared: short name, long name, description, hint for the value,
/// and whether the option takes a value.
pub uninterp spec fn declared(options: getopts::Options) -> Seq<
    (Seq<char>, Seq<char>, Seq<char>, Seq<char>, bool),
>;

/// Whether a set of `getopts` options is otherwise as `Options::new` makes
/// it and `optopt` and `optflag` leave it: options may stand among the free
/// words, a long option takes two dashes, and every declared option may be
/// left out and may be given once.
pub uninterp spec fn as_created(options: getopts::Options) -> bool;

/// What `getopts` reads from the words of a request under the options of
/// `vote_table`, the options being as created: its answers and the free
/// words, or the words of its refusal.
pub uninterp spec fn vote_reading(tokens: Seq<Seq<char>>) -> Result<
    (Map<Seq<char>, (bool, Option<Seq<char>>)>, Seq<Seq<char>>),
    Seq<char>,
>;

/// The matches of `getopts`, which verified code only asks through the
/// lookups below.
#[verifier::external_type_specification]
#[verifier::external_body]
pub struct ExMatches(getopts::Matches);

/// What some matches of `getopts` answer for each name of an option they
/// know: whether the option was given, and the value it was first given
/// with.
pub uninterp spec fn answers(found: getopts::Matches) -> Map<
    Seq<char>,
    (bool, Option<Seq<char>>),
>;

/// The words of a request that belong to no option, in their order.
pub uninterp spec fn free_words(found: getopts::Matches) -> Seq<Seq<char>>;

/// Whether some answers cover every name, short or long, of a table of
/// options.
pub open spec fn covers(
    known: Map<Seq<char>, (bool, Option<Seq<char>>)>,
    table: Seq<(Seq<char>, Seq<char>, Seq<char>, Seq<char>, bool)>,
) -> bool {
    forall|i: int|
        0 <= i < table.len() ==> known.dom().contains((#[trigger] table[i]).0)
            && known.dom().contains(table[i].1)
}

/// The usage text that `getopts` writes under a heading for options that
/// are as created.
pub uninterp spec fn usage_text(
    table: Seq<(Seq<char>, Seq<char>, Seq<char>, Seq<char>, bool)>,
    brief: Seq<char>,
) -> Seq<char>;

/// What was matched in a request.
#[derive(Debug)]
pub struct Matched {
    pub free: Vec<String>,
    pub description: Option<String>,
    pub due: Option<String>,
    pub max: Option<String>,
    pub anonymous: bool,
    pub mask: bool,
    pub noedit: bool,
    pub duplicate: bool,
}

/// What was matched, as a mathematical value.
pub struct MatchedView {
    pub free: Seq<Seq<char>>,
    pub description: Option<Seq<char>>,
    pub due: Option<Seq<char>>,
    pub max: Option<Seq<char>>,
    pub anonymous: bool,
    pub mask: bool,
    pub noedit: bool,
    pub duplicate: bool,
}

impl View for Matched {
    type V = MatchedView;

    open spec fn view(&self) -> MatchedView {
        MatchedView {
            free: views(self.free@),
            description: text_view(self.description),
            due: text_view(self.due),
            max: text_view(self.max),
            anonymous: self.anonymous,
            mask: self.mask,
            noedit: self.noedit,
            duplicate: self.duplicate,
        }
    }
}

/// The mathematical value of what was read from a request.
pub open spec fn reading_view(read: Result<Matched, String>) -> Result<MatchedView, Seq<char>> {
    match read {
        Ok(matched) => Ok(matched@),
        Err(why) => Err(why@),
    }
}

/// What was matched, given the answers of `getopts` and the free words:
/// each option of a request is asked for by its short name.
pub open spec fn matched_in(
    known: Map<Seq<char>, (bool, Option<Seq<char>>)>,
    free: Seq<Seq<char>>,
) -> MatchedView {
    MatchedView {
        free,
        description: known["d"@].1,
        due: known["t"@].1,
        max: known["x"@].1,
        anonymous: known["a"@].0,
        mask: known["m"@].0,
        noedit: known["n"@].0,
        duplicate: known["p"@].0,
    }
}

/// What was read from the words of a request: what was matched, or the
/// words of the refusal.
pub open spec fn vote_matched(tokens: Seq<Seq<char>>) -> Result<MatchedView, Seq<char>> {
    match vote_reading(tokens) {
        Ok((known, free)) => Ok(matched_in(known, free)),
        Err(why) => Err(why),
    }
}

/// Calls `getopts::Options::new`, which declares nothing, lets options
/// stand among the free words and asks two dashes of a long option.
#[verifier::external_body]
fn blank_options() -> (options: getopts::Options)
    ensures
        declared(options) == Seq::<(Seq<char>, Seq<char>, Seq<char>, Seq<char>, bool)>::empty(),
        as_created(options),
{
    getopts::Options::new()
}

/// Calls `getopts::Options::optopt`, which declares one more option that
/// takes a value, may be left out and may be given once, and touches
/// nothing else. It panics on a short name of more than one byte and on a
/// long name of exactly one.
#[verifier::external_body]
fn declare_value(options: &mut getopts::Options, short: &str, long: &str, desc: &str, hint: &str)
    requires
        short.is_ascii(),
        long.is_ascii(),
        short@.len() <= 1,
        long@.len() != 1,
    ensures
        declared(*final(options)) == declared(*old(options)).push(
            (short@, long@, desc@, hint@, true),
        ),
        as_created(*final(options)) == as_created(*old(options)),
{
    options.optopt(short, long, desc, hint);
}

/// Calls `getopts::Options::optflag`, which declares one more option that
/// takes no value, may be left out and may be given once, and touches
/// nothing else. It panics on a short name of more than one byte and on a
/// long name of exactly one.
#[verifier::external_body]
fn declare_flag(options: &mut getopts::Options, short: &str, long: &str, desc: &str)
    requires
        short.is_ascii(),
        long.is_ascii(),
        short@.len() <= 1,
        long@.len() != 1,
    ensures
        declared(*final(options)) == declared(*old(options)).push(
            (short@, long@, desc@, Seq::<char>::empty(), false),
        ),
        as_created(*final(options)) == as_created(*old(options)),
{
    options.optflag(short, long, desc);
}

/// Calls `getopts::Options::parse` on the words. A refusal is handed on in
/// its own words. Claims that, for the options of a request, the result
/// depends on the words alone, and that the matches know every name of the
/// options they were read under.
#[verifier::external_body]
fn read_tokens(options: &getopts::Options, tokens: &Vec<String>) -> (read: Result<
    getopts::Matches,
    String,
>)
    requires
        declared(*options) == vote_table(),
        as_created(*options),
    ensures
        match read {
            Ok(found) => vote_reading(views(tokens@)) == Ok::<
                (Map<Seq<char>, (bool, Option<Seq<char>>)>, Seq<Seq<char>>),
                Seq<char>,
            >((answers(found), free_words(found))) && covers(answers(found), vote_table()),
            Err(why) => vote_reading(views(tokens@)) == Err::<
                (Map<Seq<char>, (bool, Option<Seq<char>>)>, Seq<Seq<char>>),
                Seq<char>,
            >(why@),
        },
{
    match options.parse(tokens) {
        Ok(found) => Ok(found),
        Err(fail) => Err(fail.to_string()),
    }
}

/// Calls `getopts::Matches::opt_str`, which gives the value an option was
/// first given with. It panics on a name the matches do not know.
#[verifier::external_body]
fn asked_value(found: &getopts::Matches, name: &str) -> (value: Option<String>)
    requires
        answers(*found).dom().contains(name@),
    ensures
        text_view(value) == answers(*found)[name@].1,
{
    found.opt_str(name)
}

/// Calls `getopts::Matches::opt_present`, which says whether an option was
/// given. It panics on a name the matches do not know.
#[verifier::external_body]
fn asked_flag(found: &getopts::Matches, name: &str) -> (given: bool)
    requires
        answers(*found).dom().contains(name@),
    ensures
        given == answers(*found)[name@].0,
{
    found.opt_present(name)
}

/// Copies the field `free` of some matches of `getopts`.
#[verifier::external_body]
fn asked_free(found: &getopts::Matches) -> (free: Vec<String>)
    ensures
        views(free@) == free_words(*found),
{
    found.free.clone()
}

/// Calls `getopts::Options::usage`. Claims only that, for options that are
/// as created, the text depends on what they declare and on the heading.
#[verifier::external_body]
fn write_usage(options: &getopts::Options, brief: &str) -> (text: String)
    requires
        as_created(*options),
    ensures
        text@ == usage_text(declared(*options), brief@),
{
    options.usage(brief)
}

/// The options of a request.
pub open spec fn vote_table() -> Seq<(Seq<char>, Seq<char>, Seq<char>, Seq<char>, bool)> {
    seq![
        ("d"@, "description"@, "set description"@, "DESCRIPTION"@, true),
        ("t"@, "due"@, "set due time/date"@, "RFC3339"@, true),
        ("x"@, "max"@, "Max vote"@, "NUM"@, true),
        ("a"@, "anonymous"@, "anonymous vote"@, Seq::<char>::empty(), false),
        ("m"@, "mask"@, "Mask vote status"@, Seq::<char>::empty(), false),
        ("n"@, "noedit"@, "Disable editing vote"@, Seq::<char>::empty(), false),
        ("p"@, "duplicate"@, "Allow duplicate vote"@, Seq::<char>::empty(), false),
    ]
}

/// Whether some options are those of a request, made as `init` makes them.
pub open spec fn is_vote_options(options: getopts::Options) -> bool {
    declared(options) == vote_table() && as_created(options)
}

/// Declares the options of a request.
pub fn init() -> (options: getopts::Options)
    ensures
        is_vote_options(options),
{
    proof {
        reveal_strlit("d");
        reveal_strlit("t");
        reveal_strlit("x");
        reveal_strlit("a");
        reveal_strlit("m");
        reveal_strlit("n");
        reveal_strlit("p");
        reveal_strlit("description");
        reveal_strlit("due");
        reveal_strlit("max");
        reveal_strlit("anonymous");
        reveal_strlit("mask");
        reveal_strlit("noedit");
        reveal_strlit("duplicate");
    }
    let mut options = blank_options();
    declare_value(&mut options, "d", "description", "set description", "DESCRIPTION");
    declare_value(&mut options, "t", "due", "set due time/date", "RFC3339");
    declare_value(&mut options, "x", "max", "Max vote", "NUM");
    declare_flag(&mut options, "a", "anonymous", "anonymous vote");
    declare_flag(&mut options, "m", "mask", "Mask vote status");
    declare_flag(&mut options, "n", "noedit", "Disable editing vote");
    declare_flag(&mut options, "p", "duplicate", "Allow duplicate vote");
    assert(declared(options) =~= vote_table());
    options
}

/// The heading of the usage text: the prefix of commands and the command's
/// name.
pub open spec fn usage_brief(prefix: Seq<char>) -> Seq<char> {
    prefix + "vote"@
}

/// Writes how a poll is asked for.
pub fn help(options: &getopts::Options, prefix: &String) -> (text: String)
    requires
        as_created(*options),
    ensures
        text@ == usage_text(declared(*options), usage_brief(prefix@)),
{
    let mut brief = prefix.clone();
    brief.append("vote");
    write_usage(options, brief.as_str())
}

/// Asks the matches for each option of a request.
fn matched_of(found: &getopts::Matches) -> (matched: Matched)
    requires
        covers(answers(*found), vote_table()),
    ensures
        matched@ == matched_in(answers(*found), free_words(*found)),
{
    proof {
        let table = vote_table();
        assert(table[0].0 == "d"@);
        assert(table[1].0 == "t"@);
        assert(table[2].0 == "x"@);
        assert(table[3].0 == "a"@);
        assert(table[4].0 == "m"@);
        assert(table[5].0 == "n"@);
        assert(table[6].0 == "p"@);
    }
    Matched {
        free: asked_free(found),
        description: asked_value(found, "d"),
        due: asked_value(found, "t"),
        max: asked_value(found, "x"),
        anonymous: asked_flag(found, "a"),
        mask: asked_flag(found, "m"),
        noedit: asked_flag(found, "n"),
        duplicate: asked_flag(found, "p"),
    }
}

/// Writes how a poll is asked for, under the options of a request.
pub fn vote_help(prefix: &String) -> (text: String)
    ensures
        text@ == usage_text(vote_table(), usage_brief(prefix@)),
{
    let options = init();
    help(&options, prefix)
}

/// Why a request gave no poll.
#[derive(Debug)]
pub enum Refusal {
    /// The request is refused, and the requester is told why.
    Told(String),
    /// The request holds no word at all, not even the command's name.
    NoCommand,
    /// The due time is no instant in RFC 3339.
    DateUnreadable,
    /// The quota is no number from 0 to 255.
    MaxUnreadable,
    /// Thirty days from now is past the end of the calendar.
    DueOutOfRange,
}

/// A refusal as a mathematical value.
pub enum RefusalView {
    Told(Seq<char>),
    NoCommand,
    DateUnreadable,
    MaxUnreadable,
    DueOutOfRange,
}

impl View for Refusal {
    type V = RefusalView;

    open spec fn view(&self) -> RefusalView {
        match self {
            Refusal::Told(why) => RefusalView::Told(why@),
            Refusal::NoCommand => RefusalView::NoCommand,
            Refusal::DateUnreadable => RefusalView::DateUnreadable,
            Refusal::MaxUnreadable => RefusalView::MaxUnreadable,
            Refusal::DueOutOfRange => RefusalView::DueOutOfRange,
        }
    }
}

/// The mathematical value of what a request came to.
pub open spec fn request_view(result: Result<Args, Refusal>) -> Result<ArgsView, RefusalView> {
    match result {
        Ok(args) => Ok(args@),
        Err(refusal) => Err(refusal@),
    }
}

/// A text that may be missing, or the text that stands for it.
pub open spec fn text_or(text: Option<Seq<char>>, default: Seq<char>) -> Seq<char> {
    match text {
        Some(given) => given,
        None => default,
    }
}

/// The due instant of a request: the one it names, and thirty days from now
/// where it names none.
pub open spec fn due_of(due: Option<Seq<char>>, default: Timestamp) -> Option<Timestamp> {
    if text_or(due, Seq::empty()).len() == 0 {
        Some(default)
    } else {
        rfc3339_instant(text_or(due, Seq::empty()))
    }
}

/// What a request comes to, given what `getopts` read from it. The checks
/// come in this order, and the first that fails decides: `getopts` must have
/// accepted the words; a title and two choices must be there; thirty days
/// from now must be on the calendar; the due time, if one is named, must be
/// an instant; there may be no more than twenty choices; the quota, one
/// where none is named, must be a number from 0 to 255. Ballots may be
/// edited unless the request says otherwise or allows duplicates.
pub open spec fn request_outcome(read: Result<MatchedView, Seq<char>>, now: Timestamp) -> Result<
    ArgsView,
    RefusalView,
> {
    match read {
        Err(why) => Err(RefusalView::Told("Request parse error: "@ + why)),
        Ok(matched) => if matched.free.len() < 3 {
            Err(RefusalView::Told("Not enough params"@))
        } else {
            match now.window_end() {
                None => Err(RefusalView::DueOutOfRange),
                Some(default) => match due_of(matched.due, default) {
                    None => Err(RefusalView::DateUnreadable),
                    Some(due) => if matched.free.len() - 1 > MAX_CHOICES {
                        Err(RefusalView::Told("Too many choices"@))
                    } else {
                        match unsigned_of(text_or(matched.max, "1"@), 255) {
                            None => Err(RefusalView::MaxUnreadable),
                            Some(max) => Ok(
                                ArgsView {
                                    title: matched.free[0],
                                    description: text_or(matched.description, "No description"@),
                                    choices: matched.free.skip(1),
                                    due,
                                    anonymous: matched.anonymous,
                                    mask: matched.mask,
                                    max: max as u8,
                                    editable: !matched.noedit && !matched.duplicate,
                                    duplicate: matched.duplicate,
                                },
                            ),
                        }
                    },
                },
            }
        },
    }
}

/// Copies the texts from `from` on.
fn texts_from(texts: &Vec<String>, from: usize) -> (rest: Vec<String>)
    requires
        from <= texts@.len(),
    ensures
        views(rest@) == views(texts@).skip(from as int),
{
    let mut rest: Vec<String> = Vec::new();
    let mut i: usize = from;
    while i < texts.len()
        invariant
            from <= i <= texts@.len(),
            views(rest@) == views(texts@).subrange(from as int, i as int),
        decreases texts@.len() - i,
    {
        let text = texts[i].clone();
        assert(text@ == texts@[i as int]@);
        assert(views(rest@.push(text)) =~= views(rest@).push(text@));
        assert(views(texts@).subrange(from as int, i + 1) =~= views(texts@).subrange(
            from as int,
            i as int,
        ).push(views(texts@)[i as int]));
        rest.push(text);
        i += 1;
    }
    assert(views(texts@).subrange(from as int, i as int) =~= views(texts@).skip(from as int));
    rest
}

/// Makes a poll's request of what `getopts` read.
pub fn request_of(read: Result<Matched, String>, now: Timestamp) -> (result: Result<Args, Refusal>)
    ensures
        request_view(result) == request_outcome(reading_view(read), now),
        result matches Ok(args) ==> args.wf() && args.choices@.len() >= 2 && !(args.editable
            && args.duplicate),
{
    let matched = match read {
        Ok(matched) => matched,
        Err(why) => {
            let mut told = "Request parse error: ".to_owned();
            told.append(why.as_str());
            return Err(Refusal::Told(told));
        },
    };
    if matched.free.len() < 3 {
        return Err(Refusal::Told("Not enough params".to_owned()));
    }
    let default = match now.plus_window() {
        Some(default) => default,
        None => {
            return Err(Refusal::DueOutOfRange);
        },
    };
    let named = match &matched.due {
        Some(text) => text.clone(),
        None => String::new(),
    };
    let due = if named.as_str().unicode_len() == 0 {
        default
    } else {
        match Timestamp::from_text(named.as_str()) {
            Some(due) => due,
            None => {
                return Err(Refusal::DateUnreadable);
            },
        }
    };
    if matched.free.len() - 1 > MAX_CHOICES {
        return Err(Refusal::Told("Too many choices".to_owned()));
    }
    let quota = match &matched.max {
        Some(text) => text.clone(),
        None => "1".to_owned(),
    };
    let max = match read_unsigned(quota.as_str(), 255) {
        Some(max) => max as u8,
        None => {
            return Err(Refusal::MaxUnreadable);
        },
    };
    let title = matched.free[0].clone();
    let description = match &matched.description {
        Some(text) => text.clone(),
        None => "No description".to_owned(),
    };
    let choices = texts_from(&matched.free, 1);
    let args = Args {
        title,
        description,
        choices,
        due,
        anonymous: matched.anonymous,
        mask: matched.mask,
        max,
        editable: !matched.noedit && !matched.duplicate,
        duplicate: matched.duplicate,
    };
    assert(args@.choices =~= matched@.free.skip(1));
    Ok(args)
}

/// What the text of a request comes to: nothing without a word, and else
/// what its words after the first come to under the options.
pub open spec fn parsed(msg: Seq<char>, now: Timestamp) -> Result<ArgsView, RefusalView> {
    if words(msg).len() == 0 {
        Err(RefusalView::NoCommand)
    } else {
        request_outcome(vote_matched(words(msg).skip(1)), now)
    }
}

/// Reads a poll's request from its text: the command's name, then options,
/// a title and the choices, in words.
pub fn parser(options: &getopts::Options, msg: &String, now: Timestamp) -> (result: Result<
    Args,
    Refusal,
>)
    requires
        is_vote_options(*options),
    ensures
        request_view(result) == parsed(msg@, now),
        result matches Ok(args) ==> args.wf() && args.choices@.len() >= 2 && !(args.editable
            && args.duplicate),
{
    let tokens = split_words(msg.as_str());
    if tokens.len() == 0 {
        return Err(Refusal::NoCommand);
    }
    let given = texts_from(&tokens, 1);
    let read = match read_tokens(options, &given) {
        Ok(found) => Ok(matched_of(&found)),
        Err(why) => Err(why),
    };
    request_of(read, now)
}

/// Reads a poll's request from its text under the options of a request.
pub fn parse_request(msg: &String, now: Timestamp) -> (result: Result<Args, Refusal>)
    ensures
        request_view(result) == parsed(msg@, now),
        result matches Ok(args) ==> args.wf() && args.choices@.len() >= 2 && !(args.editable
            && args.duplicate),
{
    let options = init();
    parser(&options, msg, now)
}

} // verus!
