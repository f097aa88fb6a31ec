//! What the answers of the user mean: the decisions behind the prompts.
//! Asking and reading are the caller's part.

use vstd::prelude::*;
use vstd::string::StrSliceExecFns;
use crate::text::chars_of;
use crate::text::lowercase;
use crate::text::to_lowercase;

verus! {

/// Whether a character is white space.
pub open spec fn is_space(c: char) -> bool {
    let code = c as u32;
    ||| 0x09 <= code <= 0x0d
    ||| code == 0x20
    ||| code == 0x85
    ||| code == 0xa0
    ||| code == 0x1680
    ||| 0x2000 <= code <= 0x200a
    ||| code == 0x2028
    ||| code == 0x2029
    ||| code == 0x202f
    ||| code == 0x205f
    ||| code == 0x3000
}

fn space(c: char) -> (yes: bool)
    ensures
        yes == is_space(c),
{
    let code: u32 = c as u32;
    (0x09 <= code && code <= 0x0d) || code == 0x20 || code == 0x85 || code == 0xa0 || code
        == 0x1680 || (0x2000 <= code && code <= 0x200a) || code == 0x2028 || code == 0x2029
        || code == 0x202f || code == 0x205f || code == 0x3000
}

/// A text without the white space at its start.
pub open spec fn trim_start(text: Seq<char>) -> Seq<char>
    decreases text.len(),
{
    if text.len() > 0 && is_space(text.first()) {
        trim_start(text.drop_first())
    } else {
        text
    }
}

/// A text without the white space at its end.
pub open spec fn trim_end(text: Seq<char>) -> Seq<char>
    decreases text.len(),
{
    if text.len() > 0 && is_space(text.last()) {
        trim_end(text.drop_last())
    } else {
        text
    }
}

/// A text without the white space at its start and at its end.
pub open spec fn trimmed(text: Seq<char>) -> Seq<char> {
    trim_end(trim_start(text))
}

/// What is left of a text without the white space at its start is a part
/// of the text that does not start with white space, and likewise at the
/// end.
pub proof fn lemma_trim_sides(text: Seq<char>)
    ensures
        trim_start(text).len() <= text.len(),
        trim_start(text) == text.skip(text.len() - trim_start(text).len()),
        trim_start(text).len() > 0 ==> !is_space(trim_start(text).first()),
        trim_end(text).len() <= text.len(),
        trim_end(text) == text.take(trim_end(text).len() as int),
        trim_end(text).len() > 0 ==> !is_space(trim_end(text).last()),
    decreases text.len(),
{
    if text.len() > 0 && is_space(text.first()) {
        lemma_trim_sides(text.drop_first());
        let rest = text.drop_first();
        assert(rest.skip(rest.len() - trim_start(rest).len()) =~= text.skip(
            text.len() - trim_start(rest).len(),
        ));
    } else {
        assert(text.skip(0) =~= text);
    }
    if text.len() > 0 && is_space(text.last()) {
        lemma_trim_sides(text.drop_last());
        let rest = text.drop_last();
        assert(rest.take(trim_end(rest).len() as int) =~= text.take(trim_end(rest).len() as int));
    } else {
        assert(text.take(text.len() as int) =~= text);
    }
}

/// A trimmed text neither starts nor ends with white space, and trimming
/// it again changes nothing.
pub proof fn lemma_trimmed_is_clean(text: Seq<char>)
    ensures
        trimmed(text).len() <= text.len(),
        trimmed(text).len() > 0 ==> !is_space(trimmed(text).first()) && !is_space(
            trimmed(text).last(),
        ),
        trimmed(trimmed(text)) == trimmed(text),
{
    let left = trim_start(text);
    let both = trim_end(left);
    lemma_trim_sides(text);
    lemma_trim_sides(left);
    if both.len() > 0 {
        assert(both.first() == left.take(both.len() as int).first());
        assert(both.first() == left.first());
        assert(trim_start(both) == both);
        assert(trim_end(both) == both);
    } else {
        assert(trim_start(both) == both);
        assert(trim_end(both) == both);
    }
}

/// The line that the user has typed, without the white space around it.
pub fn trim_line(line: &str) -> (text: String)
    ensures
        text@ == trimmed(line@),
{
    let chars: Vec<char> = chars_of(line);
    let n: usize = chars.len();
    let mut start: usize = 0;
    assert(chars@.subrange(0, n as int) =~= chars@);
    while start < n && space(chars[start])
        invariant
            n == chars@.len(),
            start <= n,
            trim_start(chars@) == trim_start(chars@.subrange(start as int, n as int)),
        decreases n - start,
    {
        assert(chars@.subrange(start as int, n as int).drop_first() =~= chars@.subrange(
            start + 1,
            n as int,
        ));
        start += 1;
    }
    assert(chars@.subrange(0, n as int) =~= chars@);
    assert(trim_start(chars@) == chars@.subrange(start as int, n as int));
    let mut end: usize = n;
    while end > start && space(chars[end - 1])
        invariant
            start <= end <= n,
            n == chars@.len(),
            trimmed(chars@) == trim_end(chars@.subrange(start as int, end as int)),
        decreases end,
    {
        assert(chars@.subrange(start as int, end as int).drop_last() =~= chars@.subrange(
            start as int,
            end - 1,
        ));
        end -= 1;
    }
    assert(trimmed(chars@) == chars@.subrange(start as int, end as int));
    line.substring_char(start, end).to_owned()
}

/// What the user has chosen from the list of servers.
#[derive(Debug, Clone, Copy, PartialEq, Eq, Structural)]
pub enum Selection {
    /// No configured server: the user enters one by hand.
    Custom,
    /// The server at the given place of the list, the first at place zero.
    Server(usize),
    /// Nothing that can be understood: the user is asked again.
    Invalid,
}

/// The code of a character, that of an ASCII capital replaced by that of
/// its small letter.
pub open spec fn lower_code(c: char) -> u32 {
    if 0x41 <= c as u32 <= 0x5a {
        (c as u32 + 0x20) as u32
    } else {
        c as u32
    }
}

fn code_of(c: char) -> (code: u32)
    ensures
        code == lower_code(c),
{
    let code: u32 = c as u32;
    if 0x41 <= code && code <= 0x5a {
        code + 0x20
    } else {
        code
    }
}

/// Whether two texts are equal up to the case of their ASCII letters.
pub open spec fn same_ignoring_ascii_case(a: Seq<char>, b: Seq<char>) -> bool {
    &&& a.len() == b.len()
    &&& forall|i: int| 0 <= i < a.len() ==> lower_code(#[trigger] a[i]) == lower_code(b[i])
}

fn matches_word(text: &Vec<char>, word: &str) -> (same: bool)
    ensures
        same == same_ignoring_ascii_case(text@, word@),
{
    let letters: Vec<char> = chars_of(word);
    if text.len() != letters.len() {
        return false;
    }
    let n: usize = text.len();
    let mut i: usize = 0;
    while i < n
        invariant
            n == text@.len(),
            n == letters@.len(),
            letters@ == word@,
            i <= n,
            forall|j: int| 0 <= j < i ==> lower_code(#[trigger] text@[j]) == lower_code(word@[j]),
        decreases n - i,
    {
        if code_of(text[i]) != code_of(letters[i]) {
            return false;
        }
        i += 1;
    }
    true
}

/// Whether a character is a decimal digit.
pub open spec fn is_digit(c: char) -> bool {
    0x30 <= c as u32 <= 0x39
}

/// Whether a text holds decimal digits only.
pub open spec fn all_digits(text: Seq<char>) -> bool {
    forall|i: int| 0 <= i < text.len() ==> is_digit(#[trigger] text[i])
}

/// The number that a text of decimal digits denotes.
pub open spec fn decimal_value(digits: Seq<char>) -> nat
    decreases digits.len(),
{
    if digits.len() == 0 {
        0
    } else {
        10 * decimal_value(digits.drop_last()) + (digits.last() as u32 - 0x30) as nat
    }
}

/// The digits of a text that denotes a number without a sign or with a
/// plus sign in front: at least one digit, and nothing else.
pub open spec fn digits_of(text: Seq<char>) -> Option<Seq<char>> {
    let body = if text.len() > 0 && text[0] == '+' {
        text.drop_first()
    } else {
        text
    };
    if body.len() > 0 && all_digits(body) {
        Some(body)
    } else {
        None
    }
}

/// What an answer to the list of `count` servers means: `c` or `custom`
/// in any case for a server entered by hand, a number from one to `count`
/// for the server at that place, anything else for nothing. White space
/// around the answer does not count.
pub open spec fn selection_for(answer: Seq<char>, count: usize) -> Selection {
    let text = trimmed(answer);
    if same_ignoring_ascii_case(text, "c"@) || same_ignoring_ascii_case(text, "custom"@) {
        Selection::Custom
    } else {
        match digits_of(text) {
            Some(digits) => if 1 <= decimal_value(digits) <= count {
                Selection::Server((decimal_value(digits) - 1) as usize)
            } else {
                Selection::Invalid
            },
            None => Selection::Invalid,
        }
    }
}

/// A number never gets smaller when more digits follow.
proof fn lemma_value_grows(digits: Seq<char>, shorter: int)
    requires
        0 <= shorter <= digits.len(),
        all_digits(digits),
    ensures
        decimal_value(digits.take(shorter)) <= decimal_value(digits),
    decreases digits.len() - shorter,
{
    if shorter < digits.len() {
        lemma_value_grows(digits, shorter + 1);
        assert(digits.take(shorter + 1).drop_last() =~= digits.take(shorter));
        assert(is_digit(digits[shorter]));
        assert(digits.take(shorter + 1).last() == digits[shorter]);
    } else {
        assert(digits.take(shorter) =~= digits);
    }
}

/// What an answer to the list of `count` servers means.
#[verifier::loop_isolation(false)]
pub fn parse_selection(answer: &str, count: usize) -> (selection: Selection)
    ensures
        selection == selection_for(answer@, count),
        selection matches Selection::Server(place) ==> place < count,
{
    let line: String = trim_line(answer);
    let text: Vec<char> = chars_of(line.as_str());
    if matches_word(&text, "c") || matches_word(&text, "custom") {
        return Selection::Custom;
    }
    let n: usize = text.len();
    let first: usize = if n > 0 && text[0] == '+' {
        1
    } else {
        0
    };
    let ghost body = text@.subrange(first as int, n as int);
    proof {
        if first == 1 {
            assert(body =~= text@.drop_first());
        } else {
            assert(body =~= text@);
        }
    }
    if first == n {
        return Selection::Invalid;
    }
    let mut value: usize = 0;
    let mut i: usize = first;
    while i < n
        invariant
            first <= i <= n,
            n == text@.len(),
            body == text@.subrange(first as int, n as int),
            all_digits(body.take(i - first)),
            value == decimal_value(body.take(i - first)),
            value <= count,
        decreases n - i,
    {
        let code: u32 = text[i] as u32;
        proof {
            assert(body.take(i - first + 1).drop_last() =~= body.take(i - first));
            assert(body.take(i - first + 1).last() == text@[i as int]);
        }
        assert(body[i - first] == text@[i as int]);
        if code < 0x30 || code > 0x39 {
            assert(!is_digit(body[i - first]));
            assert(!all_digits(body));
            return Selection::Invalid;
        }
        let digit: usize = (code - 0x30) as usize;
        assert(all_digits(body.take(i - first + 1))) by {
            assert forall|k: int| 0 <= k < i - first + 1 implies is_digit(
                #[trigger] body.take(i - first + 1)[k],
            ) by {
                if k < i - first {
                    assert(body.take(i - first + 1)[k] == body.take(i - first)[k]);
                }
            }
        }
        if digit > count || value > (count - digit) / 10 {
            proof {
                assert(10 * value + digit > count);
                assert(decimal_value(body.take(i - first + 1)) == 10 * value + digit);
                if all_digits(body) {
                    lemma_value_grows(body, i - first + 1);
                }
            }
            return Selection::Invalid;
        }
        value = 10 * value + digit;
        i += 1;
    }
    assert(body.take(n - first) =~= body);
    if value >= 1 {
        Selection::Server(value - 1)
    } else {
        Selection::Invalid
    }
}

/// Whether a lower-case answer says yes: it starts with `y`.
pub open spec fn says_yes(lower: Seq<char>) -> bool {
    lower.len() > 0 && lower[0] == 'y'
}

/// Whether a lower-case answer says yes.
pub fn starts_with_yes(lower: &str) -> (yes: bool)
    ensures
        yes == says_yes(lower@),
{
    let n: usize = lower.unicode_len();
    n > 0 && lower.get_char(0) == 'y'
}

/// Whether the answer to the offer of the default server accepts it: in
/// lower case it starts with `y`.
pub fn accepts_default(answer: &str) -> (yes: bool)
    ensures
        yes == says_yes(lowercase(answer@)),
{
    let lower: String = to_lowercase(answer);
    starts_with_yes(lower.as_str())
}

} // verus!
