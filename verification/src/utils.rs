//! Text helpers: comparing strings, and reading and writing decimal numbers.

use vstd::prelude::*;

verus! {

/// Whether `c` is white space: a code point with the Unicode property
/// White_Space.
pub open spec fn is_space(c: char) -> bool {
    let code = c as u32;
    ||| 0x09 <= code <= 0x0D
    ||| code == 0x20
    ||| code == 0x85
    ||| code == 0xA0
    ||| code == 0x1680
    ||| 0x2000 <= code <= 0x200A
    ||| code == 0x2028
    ||| code == 0x2029
    ||| code == 0x202F
    ||| code == 0x205F
    ||| code == 0x3000
}

/// Whether `c` is one of the ten decimal digits.
pub open spec fn is_digit(c: char) -> bool {
    0x30 <= c as u32 <= 0x39
}

/// The number that the digit `c` stands for.
pub open spec fn digit_value(c: char) -> nat {
    (c as u32 - 0x30) as nat
}

/// The digit that stands for `d`, for `d` below ten.
pub open spec fn digit_char(d: nat) -> char {
    (0x30 + d) as char
}

/// The index of the first character of `text`, from `from` on, that is not
/// white space; the length of `text` if there is none.
pub open spec fn content_start(text: Seq<char>, from: int) -> int
    decreases text.len() - from,
{
    if 0 <= from < text.len() && is_space(text[from]) {
        content_start(text, from + 1)
    } else {
        from
    }
}

/// The index behind the last character of `text`, before `to` and not before
/// `start`, that is not white space; `start` if there is none.
pub open spec fn content_end(text: Seq<char>, start: int, to: int) -> int
    decreases to,
{
    if 0 <= start < to <= text.len() && is_space(text[to - 1]) {
        content_end(text, start, to - 1)
    } else {
        to
    }
}

/// `text` without the white space at its two ends.
pub open spec fn trimmed(text: Seq<char>) -> Seq<char> {
    let start = content_start(text, 0);
    text.subrange(start, content_end(text, start, text.len() as int))
}

/// The value of a sequence of decimal digits, the most significant first.
pub open spec fn digits_value(digits: Seq<char>) -> nat
    decreases digits.len(),
{
    if digits.len() == 0 {
        0
    } else {
        digits_value(digits.drop_last()) * 10 + digit_value(digits.last())
    }
}

/// The digits of `text`: all of it but a leading plus sign.
pub open spec fn unsigned_digits(text: Seq<char>) -> Seq<char> {
    if text.len() > 0 && text[0] == '+' {
        text.subrange(1, text.len() as int)
    } else {
        text
    }
}

/// The number that `text` denotes: an optional plus sign and then one or
/// more decimal digits, with white space allowed before and behind, and a
/// value that fits in 64 bits. Any other text denotes no number.
pub open spec fn number_in(text: Seq<char>) -> Option<u64> {
    let digits = unsigned_digits(trimmed(text));
    if digits.len() > 0 && (forall|i: int| 0 <= i < digits.len() ==> is_digit(#[trigger] digits[i]))
        && digits_value(digits) <= u64::MAX {
        Some(digits_value(digits) as u64)
    } else {
        None
    }
}

/// The decimal digits of `n`, with no leading zero but for zero itself.
pub open spec fn decimal(n: nat) -> Seq<char>
    decreases n,
{
    if n < 10 {
        seq![digit_char(n)]
    } else {
        decimal(n / 10).push(digit_char(n % 10))
    }
}

/// Whether two strings hold the same characters.
pub fn same_text(left: &str, right: &str) -> (same: bool)
    ensures
        same == (left@ == right@),
{
    let n: usize = left.unicode_len();
    if right.unicode_len() != n {
        return false;
    }
    let mut i: usize = 0;
    while i < n
        invariant
            i <= n,
            n == left@.len(),
            n == right@.len(),
            forall|k: int| 0 <= k < i ==> left@[k] == right@[k],
        decreases n - i,
    {
        if left.get_char(i) != right.get_char(i) {
            return false;
        }
        i = i + 1;
    }
    assert(left@ =~= right@);
    true
}

/// Whether a character is white space.
fn is_space_char(c: char) -> (space: bool)
    ensures
        space == is_space(c),
{
    let code: u32 = c as u32;
    (0x09 <= code && code <= 0x0D) || code == 0x20 || code == 0x85 || code == 0xA0 || code
        == 0x1680 || (0x2000 <= code && code <= 0x200A) || code == 0x2028 || code == 0x2029 || code
        == 0x202F || code == 0x205F || code == 0x3000
}

/// The value of a longer sequence of digits is no smaller than that of any
/// of its prefixes.
proof fn lemma_digits_value_grows(digits: Seq<char>, len: int)
    requires
        0 <= len <= digits.len(),
    ensures
        digits_value(digits.subrange(0, len)) <= digits_value(digits),
    decreases digits.len() - len,
{
    if len == digits.len() {
        assert(digits.subrange(0, len) =~= digits);
    } else {
        lemma_digits_value_grows(digits, len + 1);
        let longer = digits.subrange(0, len + 1);
        assert(longer.drop_last() =~= digits.subrange(0, len));
    }
}

/// From `from` on, `content_start` passes over white space and nothing else.
proof fn lemma_content_start(text: Seq<char>, from: int)
    requires
        0 <= from <= text.len(),
    ensures
        from <= content_start(text, from) <= text.len(),
        forall|i: int| from <= i < content_start(text, from) ==> is_space(#[trigger] text[i]),
        content_start(text, from) < text.len() ==> !is_space(text[content_start(text, from)]),
    decreases text.len() - from,
{
    if from < text.len() && is_space(text[from]) {
        lemma_content_start(text, from + 1);
    }
}

/// Back from `to`, `content_end` passes over white space and nothing else.
proof fn lemma_content_end(text: Seq<char>, start: int, to: int)
    requires
        0 <= start <= to <= text.len(),
    ensures
        start <= content_end(text, start, to) <= to,
        forall|i: int| content_end(text, start, to) <= i < to ==> is_space(#[trigger] text[i]),
        start < content_end(text, start, to) ==> !is_space(text[content_end(text, start, to) - 1]),
    decreases to,
{
    if start < to && is_space(text[to - 1]) {
        lemma_content_end(text, start, to - 1);
    }
}

/// `trimmed` cuts a text at two places: all that lies outside them is white
/// space, and what is left neither begins nor ends with white space.
pub proof fn lemma_trimmed_keeps_the_content(text: Seq<char>)
    ensures
        ({
            let start = content_start(text, 0);
            let end = content_end(text, start, text.len() as int);
            &&& 0 <= start <= end <= text.len()
            &&& trimmed(text) == text.subrange(start, end)
            &&& forall|i: int| 0 <= i < start ==> is_space(#[trigger] text[i])
            &&& forall|i: int| end <= i < text.len() ==> is_space(#[trigger] text[i])
            &&& start < end ==> !is_space(trimmed(text).first()) && !is_space(trimmed(text).last())
        }),
{
    lemma_content_start(text, 0);
    lemma_content_end(text, content_start(text, 0), text.len() as int);
}

/// The decimal digits of a number are digits, at least one, and their value
/// is that number.
pub proof fn lemma_decimal_is_digits(n: nat)
    ensures
        decimal(n).len() > 0,
        forall|i: int| 0 <= i < decimal(n).len() ==> is_digit(#[trigger] decimal(n)[i]),
        digits_value(decimal(n)) == n,
    decreases n,
{
    if n < 10 {
        assert(decimal(n).drop_last() =~= Seq::<char>::empty());
        assert(digits_value(decimal(n)) == digits_value(Seq::<char>::empty()) * 10 + digit_value(
            digit_char(n),
        ));
    } else {
        lemma_decimal_is_digits(n / 10);
        assert(decimal(n).drop_last() =~= decimal(n / 10));
    }
}

/// A number written in decimal digits is read back as itself.
pub proof fn lemma_decimal_round_trip(n: u64)
    ensures
        number_in(decimal(n as nat)) == Some(n),
{
    let text = decimal(n as nat);
    lemma_decimal_is_digits(n as nat);
    assert(trimmed(text) =~= text);
}

/// Reads a number from `input`, or returns `None` where `input` denotes
/// none.
pub fn try_num_parse(input: &str) -> (parsed: Option<u64>)
    ensures
        parsed == number_in(input@),
{
    let len: usize = input.unicode_len();
    let mut start: usize = 0;
    while start < len && is_space_char(input.get_char(start))
        invariant
            start <= len,
            len == input@.len(),
            content_start(input@, 0) == content_start(input@, start as int),
        decreases len - start,
    {
        start = start + 1;
    }
    let mut end: usize = len;
    while end > start && is_space_char(input.get_char(end - 1))
        invariant
            start <= end <= len,
            len == input@.len(),
            content_end(input@, start as int, len as int) == content_end(
                input@,
                start as int,
                end as int,
            ),
        decreases end,
    {
        end = end - 1;
    }
    let mut first: usize = start;
    if start < end && input.get_char(start) == '+' {
        first = start + 1;
    }
    let ghost digits = input@.subrange(first as int, end as int);
    if first == end {
        return None;
    }
    let mut value: u64 = 0;
    let mut i: usize = first;
    while i < end
        invariant
            first <= i <= end <= len,
            len == input@.len(),
            digits == input@.subrange(first as int, end as int),
            digits == unsigned_digits(trimmed(input@)),
            forall|k: int| 0 <= k < i - first ==> is_digit(#[trigger] digits[k]),
            value == digits_value(digits.subrange(0, i - first)),
        decreases end - i,
    {
        let c: char = input.get_char(i);
        let code: u32 = c as u32;
        if code < 0x30 || code > 0x39 {
            assert(!is_digit(digits[i - first]));
            return None;
        }
        let digit: u64 = (code - 0x30) as u64;
        proof {
            let longer = digits.subrange(0, i - first + 1);
            assert(longer.drop_last() =~= digits.subrange(0, i - first));
            lemma_digits_value_grows(digits, i - first + 1);
        }
        if value > (u64::MAX - digit) / 10 {
            return None;
        }
        value = value * 10 + digit;
        i = i + 1;
    }
    assert(digits.subrange(0, i - first) =~= digits);
    Some(value)
}

/// Reads the number that `input` denotes.
pub fn num_parse(input: &str) -> (number: u64)
    requires
        number_in(input@) is Some,
    ensures
        number_in(input@) == Some(number),
{
    try_num_parse(input).unwrap()
}

/// The text of a single digit.
fn digit_text(d: u64) -> (text: &'static str)
    requires
        d < 10,
    ensures
        text@ == seq![digit_char(d as nat)],
{
    proof {
        reveal_strlit("0");
        reveal_strlit("1");
        reveal_strlit("2");
        reveal_strlit("3");
        reveal_strlit("4");
        reveal_strlit("5");
        reveal_strlit("6");
        reveal_strlit("7");
        reveal_strlit("8");
        reveal_strlit("9");
    }
    let text = if d == 0 {
        "0"
    } else if d == 1 {
        "1"
    } else if d == 2 {
        "2"
    } else if d == 3 {
        "3"
    } else if d == 4 {
        "4"
    } else if d == 5 {
        "5"
    } else if d == 6 {
        "6"
    } else if d == 7 {
        "7"
    } else if d == 8 {
        "8"
    } else {
        "9"
    };
    text
}

/// Writes `n` in decimal digits.
pub fn decimal_text(n: u64) -> (text: String)
    ensures
        text@ == decimal(n as nat),
    decreases n,
{
    if n < 10 {
        digit_text(n).to_owned()
    } else {
        let mut text = decimal_text(n / 10);
        text.append(digit_text(n % 10));
        text
    }
}

} // verus!
