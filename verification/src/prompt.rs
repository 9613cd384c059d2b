//! The count prompt: what one line of input means, and how a run of lines
//! ends. White space around a line is dropped, and what is left must be a
//! 32-bit integer in decimal; a count must be at least 100.

use crate::decimal::{
    decimal_text, digits_of, is_digit, law_decimal_round_trip, lemma_digits_of,
    parse_i32_between, parsed_i32,
};
use vstd::prelude::*;
use vstd::string::*;

verus! {

broadcast use vstd::string::group_string_axioms;

/// The smallest count that the prompt accepts.
pub const MIN_IMAGES: i32 = 100;

/// White space as Unicode defines it (the property `White_Space`).
pub open spec fn is_white_space(c: char) -> bool {
    let code = c as u32;
    ||| 0x09 <= code <= 0x0D
    ||| code == 0x20
    ||| code == 0x85
    ||| code == 0xA0
    ||| code == 0x1680
    ||| 0x2000 <= code <= 0x200A
    ||| code == 0x2028
    ||| code == 0x2029
    ||| code == 0x202F
    ||| code == 0x205F
    ||| code == 0x3000
}

/// `s` without the white space it begins with.
pub open spec fn trim_start(s: Seq<char>) -> Seq<char>
    decreases s.len(),
{
    if s.len() > 0 && is_white_space(s[0]) {
        trim_start(s.drop_first())
    } else {
        s
    }
}

/// `s` without the white space it ends with.
pub open spec fn trim_end(s: Seq<char>) -> Seq<char>
    decreases s.len(),
{
    if s.len() > 0 && is_white_space(s.last()) {
        trim_end(s.drop_last())
    } else {
        s
    }
}

/// `s` without the white space around it.
pub open spec fn trimmed(s: Seq<char>) -> Seq<char> {
    trim_end(trim_start(s))
}

/// What one line of input means to the prompt.
#[derive(Clone, Copy, Debug, PartialEq, Eq, Structural)]
pub enum Verdict {
    /// A count of 100 or more: the batch runs with it.
    Accepted(i32),
    /// A count under 100: the prompt asks again.
    TooFew(i32),
    /// Not an integer: the run ends with an error.
    NotAnInteger,
}

/// The meaning of a line.
pub open spec fn verdict_of(line: Seq<char>) -> Verdict {
    match parsed_i32(trimmed(line)) {
        None => Verdict::NotAnInteger,
        Some(n) => if n < MIN_IMAGES {
            Verdict::TooFew(n)
        } else {
            Verdict::Accepted(n)
        },
    }
}

/// How the prompt ends on a run of lines.
#[derive(Clone, Copy, Debug, PartialEq, Eq, Structural)]
pub enum PromptEnd {
    /// Line number `line` held `count`, the first count of 100 or more.
    Accepted { count: i32, line: usize },
    /// Line number `line` was not an integer.
    Fatal { line: usize },
    /// Every line held a count under 100: the prompt is still asking.
    StillAsking,
}

/// Every line before `upto` made the prompt ask again.
pub open spec fn all_too_few(lines: Seq<String>, upto: int) -> bool {
    forall|k: int| 0 <= k < upto ==> (#[trigger] verdict_of(lines[k]@)) is TooFew
}

/// Skipping `k` leading white-space characters is what `trim_start` does.
proof fn lemma_trim_start(s: Seq<char>, k: int)
    requires
        0 <= k <= s.len(),
        forall|i: int| 0 <= i < k ==> is_white_space(#[trigger] s[i]),
        k < s.len() ==> !is_white_space(s[k]),
    ensures
        trim_start(s) == s.subrange(k, s.len() as int),
    decreases k,
{
    if k == 0 {
        assert(s.subrange(0, s.len() as int) =~= s);
    } else {
        let rest = s.drop_first();
        assert forall|i: int| 0 <= i < k - 1 implies is_white_space(#[trigger] rest[i]) by {
            assert(rest[i] == s[i + 1]);
        }
        lemma_trim_start(rest, k - 1);
        assert(rest.subrange(k - 1, rest.len() as int) =~= s.subrange(k, s.len() as int));
    }
}

/// Dropping the white-space characters from `k` on is what `trim_end` does.
proof fn lemma_trim_end(s: Seq<char>, k: int)
    requires
        0 <= k <= s.len(),
        forall|i: int| k <= i < s.len() ==> is_white_space(#[trigger] s[i]),
        0 < k ==> !is_white_space(s[k - 1]),
    ensures
        trim_end(s) == s.subrange(0, k),
    decreases s.len() - k,
{
    if k == s.len() {
        assert(s.subrange(0, k) =~= s);
    } else {
        let rest = s.drop_last();
        lemma_trim_end(rest, k);
        assert(rest.subrange(0, k) =~= s.subrange(0, k));
    }
}

/// Every character is white space.
pub open spec fn all_white_space(s: Seq<char>) -> bool {
    forall|i: int| 0 <= i < s.len() ==> is_white_space(#[trigger] s[i])
}

/// White space before a text does not change what `trim_start` leaves of it.
proof fn lemma_trim_start_skips(left: Seq<char>, s: Seq<char>)
    requires
        all_white_space(left),
    ensures
        trim_start(left + s) == trim_start(s),
    decreases left.len(),
{
    if left.len() == 0 {
        assert(left + s =~= s);
    } else {
        assert((left + s)[0] == left[0]);
        assert((left + s).drop_first() =~= left.drop_first() + s);
        assert forall|i: int| 0 <= i < left.drop_first().len() implies is_white_space(
            #[trigger] left.drop_first()[i],
        ) by {
            assert(left.drop_first()[i] == left[i + 1]);
        }
        lemma_trim_start_skips(left.drop_first(), s);
    }
}

/// White space after a text does not change what `trim_end` leaves of it.
proof fn lemma_trim_end_skips(s: Seq<char>, right: Seq<char>)
    requires
        all_white_space(right),
    ensures
        trim_end(s + right) == trim_end(s),
    decreases right.len(),
{
    if right.len() == 0 {
        assert(s + right =~= s);
    } else {
        assert((s + right).last() == right.last());
        assert((s + right).drop_last() =~= s + right.drop_last());
        assert forall|i: int| 0 <= i < right.drop_last().len() implies is_white_space(
            #[trigger] right.drop_last()[i],
        ) by {
            assert(right.drop_last()[i] == right[i]);
        }
        lemma_trim_end_skips(s, right.drop_last());
    }
}

/// The number of white-space characters that `s` begins with.
spec fn leading_white_space(s: Seq<char>) -> int
    decreases s.len(),
{
    if s.len() > 0 && is_white_space(s[0]) {
        1 + leading_white_space(s.drop_first())
    } else {
        0
    }
}

/// `leading_white_space` counts a run of white space that ends at the first
/// other character, or at the end.
proof fn lemma_leading_white_space(s: Seq<char>)
    ensures
        0 <= leading_white_space(s) <= s.len(),
        forall|i: int| 0 <= i < leading_white_space(s) ==> is_white_space(#[trigger] s[i]),
        leading_white_space(s) < s.len() ==> !is_white_space(s[leading_white_space(s)]),
    decreases s.len(),
{
    if s.len() > 0 && is_white_space(s[0]) {
        let rest = s.drop_first();
        lemma_leading_white_space(rest);
        assert forall|i: int| 0 <= i < leading_white_space(s) implies is_white_space(
            #[trigger] s[i],
        ) by {
            if i > 0 {
                assert(s[i] == rest[i - 1]);
            }
        }
        if leading_white_space(s) < s.len() {
            assert(s[leading_white_space(s)] == rest[leading_white_space(rest)]);
        }
    }
}

/// White space around a text does not change its trimming.
pub proof fn law_trimming_ignores_padding(left: Seq<char>, text: Seq<char>, right: Seq<char>)
    requires
        all_white_space(left),
        all_white_space(right),
    ensures
        trimmed(left + text + right) == trimmed(text),
{
    let padded = text + right;
    assert(left + text + right =~= left + padded);
    lemma_trim_start_skips(left, padded);
    let k = leading_white_space(text);
    lemma_leading_white_space(text);
    if k == text.len() {
        assert forall|i: int| 0 <= i < padded.len() implies is_white_space(
            #[trigger] padded[i],
        ) by {
            if i < text.len() {
                assert(padded[i] == text[i]);
            } else {
                assert(padded[i] == right[i - text.len()]);
            }
        }
        lemma_trim_start(padded, padded.len() as int);
        lemma_trim_start(text, k);
        assert(trim_start(padded) =~= Seq::<char>::empty());
        assert(trim_start(text) =~= Seq::<char>::empty());
    } else {
        assert forall|i: int| 0 <= i < k implies is_white_space(#[trigger] padded[i]) by {
            assert(padded[i] == text[i]);
        }
        assert(padded[k] == text[k]);
        lemma_trim_start(padded, k);
        lemma_trim_start(text, k);
        assert(padded.subrange(k, padded.len() as int) =~= text.subrange(k, text.len() as int)
            + right);
        lemma_trim_end_skips(trim_start(text), right);
    }
}

/// White space around a line does not change what the line means.
pub proof fn law_verdict_ignores_padding(left: Seq<char>, line: Seq<char>, right: Seq<char>)
    requires
        all_white_space(left),
        all_white_space(right),
    ensures
        verdict_of(left + line + right) == verdict_of(line),
{
    law_trimming_ignores_padding(left, line, right);
}

/// Text that neither begins nor ends with white space is its own trimming.
pub proof fn lemma_trimmed_is_identity(s: Seq<char>)
    requires
        s.len() > 0,
        !is_white_space(s[0]),
        !is_white_space(s.last()),
    ensures
        trimmed(s) == s,
{
}

/// A count under 100 makes the prompt ask again, whatever white space stands
/// around its decimal text: the count is never accepted.
pub proof fn law_small_count_asks_again(n: i32, left: Seq<char>, right: Seq<char>)
    requires
        n < MIN_IMAGES,
        all_white_space(left),
        all_white_space(right),
    ensures
        verdict_of(left + decimal_text(n as int) + right) == Verdict::TooFew(n),
{
    lemma_decimal_text_reads_back(n);
    law_verdict_ignores_padding(left, decimal_text(n as int), right);
}

/// A count of 100 or more is accepted, whatever white space stands around
/// its decimal text.
pub proof fn law_large_count_is_accepted(n: i32, left: Seq<char>, right: Seq<char>)
    requires
        n >= MIN_IMAGES,
        all_white_space(left),
        all_white_space(right),
    ensures
        verdict_of(left + decimal_text(n as int) + right) == Verdict::Accepted(n),
{
    lemma_decimal_text_reads_back(n);
    law_verdict_ignores_padding(left, decimal_text(n as int), right);
}

/// The decimal text of a 32-bit integer is read back as that integer.
proof fn lemma_decimal_text_reads_back(n: i32)
    ensures
        parsed_i32(trimmed(decimal_text(n as int))) == Some(n),
{
    let text = decimal_text(n as int);
    law_decimal_round_trip(n as int);
    if n < 0 {
        lemma_digits_of((-n) as nat);
        let digits = digits_of((-n) as nat);
        assert(text.last() == digits.last());
        assert(is_digit(digits[digits.len() - 1]));
    } else {
        lemma_digits_of(n as nat);
        assert(is_digit(text[0]));
        assert(is_digit(text[text.len() - 1]));
    }
    lemma_trimmed_is_identity(text);
}

/// Whether `c` is white space.
pub fn white_space(c: char) -> (b: bool)
    ensures
        b == is_white_space(c),
{
    let code: u32 = c as u32;
    (0x09 <= code && code <= 0x0D) || code == 0x20 || code == 0x85 || code == 0xA0 || code
        == 0x1680 || (0x2000 <= code && code <= 0x200A) || code == 0x2028 || code == 0x2029
        || code == 0x202F || code == 0x205F || code == 0x3000
}

/// The characters of a string.
fn chars_of(s: &str) -> (chars: Vec<char>)
    ensures
        chars@ == s@,
{
    let mut chars: Vec<char> = Vec::new();
    for c in it: s.chars()
        invariant
            it.seq() == s@,
            chars@ == it.seq().subrange(0, it.index()),
    {
        chars.push(c);
    }
    assert(chars@ =~= s@);
    chars
}

/// Says what a line of input means: an accepted count, a count that is too
/// small, or no integer at all.
pub fn judge_line(line: &str) -> (v: Verdict)
    ensures
        v == verdict_of(line@),
        v matches Verdict::Accepted(n) ==> n >= MIN_IMAGES,
        v matches Verdict::TooFew(n) ==> n < MIN_IMAGES,
{
    let chars = chars_of(line);
    let mut from: usize = 0;
    while from < chars.len() && white_space(chars[from])
        invariant
            from <= chars.len(),
            forall|i: int| 0 <= i < from ==> is_white_space(#[trigger] chars@[i]),
        decreases chars.len() - from,
    {
        from += 1;
    }
    let mut to: usize = chars.len();
    while to > from && white_space(chars[to - 1])
        invariant
            from <= to <= chars.len(),
            forall|i: int| to <= i < chars.len() ==> is_white_space(#[trigger] chars@[i]),
        decreases to - from,
    {
        to -= 1;
    }
    proof {
        let s = chars@;
        lemma_trim_start(s, from as int);
        let t = s.subrange(from as int, s.len() as int);
        assert forall|i: int| to - from <= i < t.len() implies is_white_space(#[trigger] t[i]) by {
            assert(t[i] == s[i + from]);
        }
        lemma_trim_end(t, to - from);
        assert(t.subrange(0, to - from) =~= s.subrange(from as int, to as int));
    }
    match parse_i32_between(&chars, from, to) {
        None => Verdict::NotAnInteger,
        Some(n) => if n < MIN_IMAGES {
            Verdict::TooFew(n)
        } else {
            Verdict::Accepted(n)
        },
    }
}

/// Runs the prompt over the lines that a user types, in order: it asks again
/// after every count under 100, and ends at the first line that holds a
/// count of 100 or more, or that is not an integer.
pub fn get_number_of_images(lines: &Vec<String>) -> (end: PromptEnd)
    ensures
        match end {
            PromptEnd::Accepted { count, line } => {
                &&& line < lines.len()
                &&& all_too_few(lines@, line as int)
                &&& verdict_of(lines[line as int]@) == Verdict::Accepted(count)
            },
            PromptEnd::Fatal { line } => {
                &&& line < lines.len()
                &&& all_too_few(lines@, line as int)
                &&& verdict_of(lines[line as int]@) == Verdict::NotAnInteger
            },
            PromptEnd::StillAsking => all_too_few(lines@, lines.len() as int),
        },
{
    let mut k: usize = 0;
    while k < lines.len()
        invariant
            k <= lines.len(),
            all_too_few(lines@, k as int),
        decreases lines.len() - k,
    {
        match judge_line(lines[k].as_str()) {
            Verdict::Accepted(count) => {
                return PromptEnd::Accepted { count, line: k };
            },
            Verdict::NotAnInteger => {
                return PromptEnd::Fatal { line: k };
            },
            Verdict::TooFew(_) => {},
        }
        k += 1;
    }
    PromptEnd::StillAsking
}

} // verus!
