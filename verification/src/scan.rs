//! Reading texts character by character: parts that stand at a place, and
//! numbers in decimal.

use crate::text::{chars_of, decimal, digit_char};
use vstd::prelude::*;
use vstd::string::StrSliceExecFns;

verus! {

/// Whether `part` stands in `text` at `pos`.
pub open spec fn has_at(text: Seq<char>, pos: int, part: Seq<char>) -> bool {
    0 <= pos && pos + part.len() <= text.len() && text.subrange(pos, pos + part.len()) == part
}

/// A text made of two parts stands where the first part stands and the
/// second follows it.
pub proof fn lemma_has_at_concat(text: Seq<char>, pos: int, a: Seq<char>, b: Seq<char>)
    ensures
        has_at(text, pos, a + b) <==> has_at(text, pos, a) && has_at(text, pos + a.len(), b),
{
    if has_at(text, pos, a + b) {
        assert(text.subrange(pos, pos + a.len()) =~= (a + b).subrange(0, a.len() as int));
        assert((a + b).subrange(0, a.len() as int) =~= a);
        assert(text.subrange(pos + a.len(), pos + a.len() + b.len()) =~= (a + b).subrange(
            a.len() as int,
            (a + b).len() as int,
        ));
        assert((a + b).subrange(a.len() as int, (a + b).len() as int) =~= b);
    }
    if has_at(text, pos, a) && has_at(text, pos + a.len(), b) {
        assert forall|k: int| 0 <= k < a.len() + b.len() implies text.subrange(
            pos,
            pos + a.len() + b.len(),
        )[k] == (a + b)[k] by {
            if k < a.len() {
                assert(text.subrange(pos, pos + a.len())[k] == a[k]);
            } else {
                assert(text.subrange(pos + a.len(), pos + a.len() + b.len())[k - a.len()] == b[k
                    - a.len()]);
            }
        }
        assert(text.subrange(pos, pos + (a + b).len()) =~= a + b);
    }
}

/// Decides `has_at`.
pub fn stands_at(input: &Vec<char>, pos: usize, part: &str) -> (found: bool)
    ensures
        found == has_at(input@, pos as int, part@),
{
    let wanted = chars_of(part);
    if pos > input.len() || wanted.len() > input.len() - pos {
        return false;
    }
    let size = input.len();
    let mut k: usize = 0;
    while k < wanted.len()
        invariant
            wanted@ == part@,
            size == input@.len(),
            pos + wanted@.len() <= size,
            k <= wanted@.len(),
            forall|m: int| 0 <= m < k ==> input@[pos + m] == wanted@[m],
        decreases wanted@.len() - k,
    {
        if input[pos + k] != wanted[k] {
            assert(input@.subrange(pos as int, pos + wanted@.len())[k as int] != wanted@[k as int]);
            return false;
        }
        k += 1;
    }
    assert(input@.subrange(pos as int, pos + wanted@.len()) =~= wanted@);
    true
}

/// Whether a character is a decimal digit.
pub open spec fn is_digit(c: char) -> bool {
    '0' <= c && c <= '9'
}

/// The number a digit stands for.
pub open spec fn digit_value(c: char) -> nat {
    (c as nat - '0' as nat) as nat
}

/// The number and the end of the run of digits that begins at `pos`, read
/// onto the number `acc` that the digits before it gave.
pub open spec fn scan_number(text: Seq<char>, pos: int, acc: nat) -> (nat, int)
    decreases text.len() - pos,
{
    if 0 <= pos < text.len() && is_digit(text[pos]) {
        scan_number(text, pos + 1, acc * 10 + digit_value(text[pos]))
    } else {
        (acc, pos)
    }
}

/// The number that stands at `pos`, where one stands there and fits 64 bits,
/// and the place behind it.
pub open spec fn number_at(text: Seq<char>, pos: int) -> Option<(u64, int)> {
    if 0 <= pos < text.len() && is_digit(text[pos]) {
        let (value, end) = scan_number(text, pos, 0);
        if value <= u64::MAX {
            Some((value as u64, end))
        } else {
            None
        }
    } else {
        None
    }
}

/// Reading on never makes the number smaller, and ends within the text.
pub proof fn lemma_scan_grows(text: Seq<char>, pos: int, acc: nat)
    requires
        0 <= pos <= text.len(),
    ensures
        scan_number(text, pos, acc).0 >= acc,
        pos <= scan_number(text, pos, acc).1 <= text.len(),
    decreases text.len() - pos,
{
    if pos < text.len() && is_digit(text[pos]) {
        lemma_scan_grows(text, pos + 1, acc * 10 + digit_value(text[pos]));
    }
}

/// Reads the number that stands at `pos`.
pub fn read_number(input: &Vec<char>, pos: usize) -> (found: Option<(u64, usize)>)
    ensures
        match found {
            Some((value, end)) => number_at(input@, pos as int) == Some((value, end as int))
                && pos < end <= input@.len(),
            None => number_at(input@, pos as int) is None,
        },
{
    if pos >= input.len() || !(input[pos] >= '0' && input[pos] <= '9') {
        return None;
    }
    let ghost text = input@;
    let mut value: u64 = 0;
    let mut at: usize = pos;
    while at < input.len() && input[at] >= '0' && input[at] <= '9'
        invariant
            text == input@,
            pos <= at <= text.len(),
            at > pos || value == 0,
            scan_number(text, pos as int, 0) == scan_number(text, at as int, value as nat),
        decreases text.len() - at,
    {
        let digit = (input[at] as u32 - '0' as u32) as u64;
        if value > (u64::MAX - digit) / 10 {
            proof {
                lemma_scan_grows(text, at + 1, (value * 10 + digit) as nat);
            }
            return None;
        }
        value = value * 10 + digit;
        at += 1;
    }
    Some((value, at))
}

/// The number that the digits of `n` give when they are read onto `acc`.
pub open spec fn read_onto(acc: nat, n: nat) -> nat
    decreases n,
{
    if n < 10 {
        acc * 10 + n
    } else {
        read_onto(acc, n / 10) * 10 + n % 10
    }
}

/// Read onto nothing, the digits of a number give the number.
pub proof fn lemma_read_onto_zero(n: nat)
    ensures
        read_onto(0, n) == n,
    decreases n,
{
    if n >= 10 {
        lemma_read_onto_zero(n / 10);
    }
}

/// A number in decimal begins with a digit.
pub proof fn lemma_decimal_begins(n: nat)
    ensures
        decimal(n).len() >= 1,
        is_digit(decimal(n)[0]),
    decreases n,
{
    if n >= 10 {
        lemma_decimal_begins(n / 10);
    }
}

/// Where a number stands in decimal, the scan reads all of its digits.
pub proof fn lemma_scan_decimal(text: Seq<char>, pos: int, acc: nat, n: nat)
    requires
        has_at(text, pos, decimal(n)),
    ensures
        scan_number(text, pos, acc) == scan_number(
            text,
            pos + decimal(n).len(),
            read_onto(acc, n),
        ),
    decreases n,
{
    if n < 10 {
        assert(text.subrange(pos, pos + 1)[0] == digit_char(n));
    } else {
        let head = decimal(n / 10);
        let last = digit_char(n % 10);
        assert(decimal(n) =~= head + seq![last]);
        lemma_has_at_concat(text, pos, head, seq![last]);
        lemma_scan_decimal(text, pos, acc, n / 10);
        assert(text.subrange(pos + head.len(), pos + head.len() + 1)[0] == last);
    }
}

/// A number that fits 64 bits, written in decimal and followed by anything
/// but a digit, is read back as it was written.
pub proof fn lemma_number_read_back(text: Seq<char>, pos: int, n: u64)
    requires
        has_at(text, pos, decimal(n as nat)),
        pos + decimal(n as nat).len() == text.len() || !is_digit(
            text[pos + decimal(n as nat).len()],
        ),
    ensures
        number_at(text, pos) == Some((n, pos + decimal(n as nat).len())),
{
    lemma_decimal_begins(n as nat);
    assert(text.subrange(pos, pos + decimal(n as nat).len())[0] == decimal(n as nat)[0]);
    lemma_scan_decimal(text, pos, 0, n as nat);
    lemma_read_onto_zero(n as nat);
}

/// The number that a text spells: digits from its first character to its
/// last, after one plus sign if it begins with one, and no greater than
/// `max`. Leading zeros count for nothing.
pub open spec fn unsigned_of(text: Seq<char>, max: u64) -> Option<u64> {
    let start: int = if text.len() > 0 && text[0] == '+' {
        1
    } else {
        0
    };
    match number_at(text, start) {
        Some((value, end)) => if end == text.len() && value <= max {
            Some(value)
        } else {
            None
        },
        None => None,
    }
}

/// Reads the number that a text spells.
pub fn read_unsigned(text: &str, max: u64) -> (found: Option<u64>)
    ensures
        found == unsigned_of(text@, max),
{
    let input = chars_of(text);
    let start: usize = if input.len() > 0 && input[0] == '+' {
        1
    } else {
        0
    };
    match read_number(&input, start) {
        Some((value, end)) => if end == input.len() && value <= max {
            Some(value)
        } else {
            None
        },
        None => None,
    }
}

/// A text with every occurrence of `part` taken out, the occurrences found
/// from the left and none overlapping another.
pub open spec fn without_part(text: Seq<char>, part: Seq<char>) -> Seq<char>
    decreases text.len(),
{
    if text.len() == 0 || part.len() == 0 {
        text
    } else if has_at(text, 0, part) {
        without_part(text.skip(part.len() as int), part)
    } else {
        seq![text[0]] + without_part(text.skip(1), part)
    }
}

/// Takes every occurrence of `part` out of a text.
pub fn remove_all(text: &str, part: &str) -> (left: String)
    ensures
        left@ == without_part(text@, part@),
{
    let input = chars_of(text);
    let size = chars_of(part).len();
    if size == 0 {
        return text.to_owned();
    }
    let mut left = String::new();
    let mut at: usize = 0;
    assert(input@.skip(0) =~= input@);
    while at < input.len()
        invariant
            input@ == text@,
            size == part@.len(),
            size > 0,
            at <= input@.len(),
            without_part(text@, part@) == left@ + without_part(input@.skip(at as int), part@),
        decreases input@.len() - at,
    {
        let ghost rest = input@.skip(at as int);
        if stands_at(&input, at, part) {
            proof {
                assert(rest.subrange(0, size as int) =~= input@.subrange(at as int, at + size));
                assert(rest.skip(size as int) =~= input@.skip(at + size));
            }
            at += size;
        } else {
            proof {
                if has_at(rest, 0, part@) {
                    assert(rest.subrange(0, size as int) =~= input@.subrange(
                        at as int,
                        at + size,
                    ));
                }
                assert(rest.skip(1) =~= input@.skip(at + 1));
                assert(left@ + (seq![rest[0]] + without_part(rest.skip(1), part@)) =~= left@.push(
                    input@[at as int],
                ) + without_part(rest.skip(1), part@));
            }
            left.push(input[at]);
            at += 1;
        }
    }
    assert(left@ + Seq::<char>::empty() =~= left@);
    left
}

/// Whether a character is white space.
pub open spec fn is_space(c: char) -> bool {
    let code = c as u32;
    ||| 0x09 <= code <= 0x0D
    ||| code == 0x20
    ||| code == 0x85
    ||| code == 0xA0
    ||| code == 0x1680
    ||| 0x2000 <= code <= 0x200A
    ||| code == 0x2028
    ||| code == 0x2029
    ||| code == 0x202F
    ||| code == 0x205F
    ||| code == 0x3000
}

/// Decides `is_space`.
pub fn space(c: char) -> (b: bool)
    ensures
        b == is_space(c),
{
    let code = c as u32;
    (0x09 <= code && code <= 0x0D) || code == 0x20 || code == 0x85 || code == 0xA0 || code
        == 0x1680 || (0x2000 <= code && code <= 0x200A) || code == 0x2028 || code == 0x2029
        || code == 0x202F || code == 0x205F || code == 0x3000
}

/// The words seen so far, with the word in hand added if it is one.
pub open spec fn with_word(seen: Seq<Seq<char>>, word: Seq<char>) -> Seq<Seq<char>> {
    if word.len() > 0 {
        seen.push(word)
    } else {
        seen
    }
}

/// The words of a text from `pos` on, behind the words `seen` and the
/// beginning `word` of the word that `pos` stands in.
pub open spec fn words_from(text: Seq<char>, pos: int, word: Seq<char>, seen: Seq<Seq<char>>)
    -> Seq<Seq<char>>
    decreases text.len() - pos,
{
    if pos < 0 || pos >= text.len() {
        with_word(seen, word)
    } else if is_space(text[pos]) {
        words_from(text, pos + 1, Seq::empty(), with_word(seen, word))
    } else {
        words_from(text, pos + 1, word.push(text[pos]), seen)
    }
}

/// The words of a text: its longest runs of characters that are no white
/// space, in their order.
pub open spec fn words(text: Seq<char>) -> Seq<Seq<char>> {
    words_from(text, 0, Seq::empty(), Seq::empty())
}

/// A word: at least one character, and none of them white space.
pub open spec fn is_word(word: Seq<char>) -> bool {
    word.len() > 0 && forall|i: int| 0 <= i < word.len() ==> !is_space(#[trigger] word[i])
}

/// Reading on from words and the beginning of a word gives words.
proof fn lemma_words_from_are_words(
    text: Seq<char>,
    pos: int,
    word: Seq<char>,
    seen: Seq<Seq<char>>,
)
    requires
        forall|i: int| 0 <= i < word.len() ==> !is_space(#[trigger] word[i]),
        forall|k: int| 0 <= k < seen.len() ==> is_word(#[trigger] seen[k]),
    ensures
        forall|k: int|
            0 <= k < words_from(text, pos, word, seen).len() ==> is_word(
                #[trigger] words_from(text, pos, word, seen)[k],
            ),
    decreases text.len() - pos,
{
    let more = with_word(seen, word);
    assert forall|k: int| 0 <= k < more.len() implies is_word(#[trigger] more[k]) by {
        if k < seen.len() {
            assert(more[k] == seen[k]);
        }
    }
    if pos < 0 || pos >= text.len() {
        assert(words_from(text, pos, word, seen) == more);
    } else if is_space(text[pos]) {
        assert(words_from(text, pos, word, seen) == words_from(
            text,
            pos + 1,
            Seq::empty(),
            more,
        ));
        lemma_words_from_are_words(text, pos + 1, Seq::empty(), more);
    } else {
        assert(words_from(text, pos, word, seen) == words_from(
            text,
            pos + 1,
            word.push(text[pos]),
            seen,
        ));
        let longer = word.push(text[pos]);
        assert forall|i: int| 0 <= i < longer.len() implies !is_space(#[trigger] longer[i]) by {
            if i < word.len() {
                assert(longer[i] == word[i]);
            }
        }
        lemma_words_from_are_words(text, pos + 1, longer, seen);
    }
}

/// No word of a text is empty, and none holds white space.
pub proof fn lemma_words_are_words(text: Seq<char>)
    ensures
        forall|k: int| 0 <= k < words(text).len() ==> is_word(#[trigger] words(text)[k]),
{
    lemma_words_from_are_words(text, 0, Seq::empty(), Seq::empty());
}

/// The texts of some strings.
pub open spec fn views(texts: Seq<String>) -> Seq<Seq<char>> {
    Seq::new(texts.len(), |i: int| texts[i]@)
}

/// Splits a text into its words.
pub fn split_words(text: &str) -> (found: Vec<String>)
    ensures
        views(found@) == words(text@),
{
    let input = chars_of(text);
    let mut found: Vec<String> = Vec::new();
    let mut word = String::new();
    let mut at: usize = 0;
    assert(views(found@) =~= Seq::<Seq<char>>::empty());
    while at < input.len()
        invariant
            input@ == text@,
            at <= input@.len(),
            words(text@) == words_from(text@, at as int, word@, views(found@)),
        decreases input@.len() - at,
    {
        if space(input[at]) {
            if word.as_str().unicode_len() > 0 {
                assert(views(found@.push(word)) =~= views(found@).push(word@));
                found.push(word);
            }
            word = String::new();
        } else {
            word.push(input[at]);
        }
        at += 1;
    }
    if word.as_str().unicode_len() > 0 {
        assert(views(found@.push(word)) =~= views(found@).push(word@));
        found.push(word);
    }
    found
}

/// Every character of a number in decimal is a digit.
pub proof fn lemma_decimal_is_digits(n: nat)
    ensures
        forall|i: int| 0 <= i < decimal(n).len() ==> is_digit(#[trigger] decimal(n)[i]),
    decreases n,
{
    if n >= 10 {
        lemma_decimal_is_digits(n / 10);
        assert forall|i: int| 0 <= i < decimal(n).len() implies is_digit(
            #[trigger] decimal(n)[i],
        ) by {
            if i < decimal(n / 10).len() {
                assert(decimal(n)[i] == decimal(n / 10)[i]);
            }
        }
    }
}

/// A number that fits 64 bits and is no greater than `max` is read from its
/// decimal text.
pub proof fn lemma_unsigned_read_back(n: u64, max: u64)
    requires
        n <= max,
    ensures
        unsigned_of(decimal(n as nat), max) == Some(n),
{
    let text = decimal(n as nat);
    lemma_decimal_begins(n as nat);
    assert(has_at(text, 0, text)) by {
        assert(text.subrange(0, text.len() as int) =~= text);
    }
    lemma_number_read_back(text, 0, n);
}

/// Two numbers with the same decimal text are the same number.
pub proof fn lemma_decimal_names_one(a: u64, b: u64)
    requires
        decimal(a as nat) == decimal(b as nat),
    ensures
        a == b,
{
    lemma_unsigned_read_back(a, u64::MAX);
    lemma_unsigned_read_back(b, u64::MAX);
}

/// Taking a part out of a text in which it does not begin anywhere changes
/// nothing.
pub proof fn lemma_without_absent_part(text: Seq<char>, part: Seq<char>)
    requires
        part.len() > 0,
        forall|i: int| 0 <= i < text.len() ==> #[trigger] text[i] != part[0],
    ensures
        without_part(text, part) == text,
    decreases text.len(),
{
    if text.len() > 0 {
        if has_at(text, 0, part) {
            assert(text.subrange(0, part.len() as int)[0] == part[0]);
        }
        lemma_without_absent_part(text.skip(1), part);
        assert(seq![text[0]] + text.skip(1) =~= text);
    }
}

} // verus!
