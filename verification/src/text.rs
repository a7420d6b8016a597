//! Text: what the library takes from the standard library's string functions, and the few text
//! forms that it builds itself.

use vstd::prelude::*;
use vstd::string::*;
use vstd::utf8::*;

verus! {

/// The characters with the Unicode property `White_Space`.
pub open spec fn white_space(c: char) -> bool {
    let n = c as u32;
    ||| 0x9 <= n <= 0xd
    ||| n == 0x20
    ||| n == 0x85
    ||| n == 0xa0
    ||| n == 0x1680
    ||| 0x2000 <= n <= 0x200a
    ||| n == 0x2028
    ||| n == 0x2029
    ||| n == 0x202f
    ||| n == 0x205f
    ||| n == 0x3000
}

/// `text` from its first character that is not white space on.
pub open spec fn trimmed_start(text: Seq<char>) -> Seq<char>
    decreases text.len(),
{
    if text.len() > 0 && white_space(text.first()) {
        trimmed_start(text.drop_first())
    } else {
        text
    }
}

/// `text` up to its last character that is not white space.
pub open spec fn trimmed_end(text: Seq<char>) -> Seq<char>
    decreases text.len(),
{
    if text.len() > 0 && white_space(text.last()) {
        trimmed_end(text.drop_last())
    } else {
        text
    }
}

/// `text` without the white space at its two ends.
pub open spec fn trimmed(text: Seq<char>) -> Seq<char> {
    trimmed_end(trimmed_start(text))
}

/// Trimming leaves no white space at the ends.
pub proof fn lemma_trimmed_ends(text: Seq<char>)
    ensures
        trimmed(text).len() > 0 ==> !white_space(trimmed(text).first()) && !white_space(
            trimmed(text).last(),
        ),
{
    lemma_trimmed_start(text);
    lemma_trimmed_end(trimmed_start(text));
}

proof fn lemma_trimmed_start(text: Seq<char>)
    ensures
        trimmed_start(text).len() > 0 ==> !white_space(trimmed_start(text).first()),
    decreases text.len(),
{
    if text.len() > 0 && white_space(text.first()) {
        lemma_trimmed_start(text.drop_first());
    }
}

proof fn lemma_trimmed_end(text: Seq<char>)
    ensures
        trimmed_end(text).len() > 0 ==> !white_space(trimmed_end(text).last())
            && trimmed_end(text).first() == text.first(),
    decreases text.len(),
{
    if text.len() > 0 && white_space(text.last()) {
        lemma_trimmed_end(text.drop_last());
    }
}

/// `str::trim` removes leading and trailing white space, that is, the characters with the Unicode
/// property `White_Space`.
pub assume_specification[ str::trim ](s: &str) -> (r: &str)
    ensures
        r@ == trimmed(s@),
;

/// An ASCII capital as its small letter, any other character as it is.
pub open spec fn ascii_lower(c: char) -> char {
    if 0x41 <= c as u32 <= 0x5a {
        (c as u32 + 0x20) as char
    } else {
        c
    }
}

/// What `str::to_lowercase` gives for a text that is not all ASCII.
pub uninterp spec fn unicode_lowercase(text: Seq<char>) -> Seq<char>;

/// `text` in lower case.
pub open spec fn lowercase(text: Seq<char>) -> Seq<char> {
    if is_ascii_chars(text) {
        text.map_values(|c: char| ascii_lower(c))
    } else {
        unicode_lowercase(text)
    }
}

/// `str::to_lowercase` maps a text to its lower case by the Unicode tables. Of a text that is all
/// ASCII the contract says what comes out; of any other it only says that the result depends on
/// the text alone.
pub assume_specification[ str::to_lowercase ](s: &str) -> (r: String)
    ensures
        is_ascii_chars(s@) ==> r@ == s@.map_values(|c: char| ascii_lower(c)),
        !is_ascii_chars(s@) ==> r@ == unicode_lowercase(s@),
;

/// What `char::is_alphanumeric` gives for a character outside ASCII.
pub uninterp spec fn unicode_alphanumeric(c: char) -> bool;

/// Whether `c` is a letter or a number.
pub open spec fn alphanumeric(c: char) -> bool {
    let n = c as u32;
    if n < 0x80 {
        0x30 <= n <= 0x39 || 0x41 <= n <= 0x5a || 0x61 <= n <= 0x7a
    } else {
        unicode_alphanumeric(c)
    }
}

/// `char::is_alphanumeric` tells letters and numbers from the other characters by the Unicode
/// tables: in ASCII they are the digits and the two alphabets. Outside ASCII the contract only
/// says that the result depends on the character alone.
pub assume_specification[ char::is_alphanumeric ](c: char) -> (r: bool)
    ensures
        (c as u32) < 0x80 ==> r == alphanumeric(c),
        (c as u32) >= 0x80 ==> r == unicode_alphanumeric(c),
;

/// Whether `needle` stands in `text` at position `at`.
pub open spec fn occurs_at(text: Seq<char>, needle: Seq<char>, at: int) -> bool {
    &&& 0 <= at
    &&& at + needle.len() <= text.len()
    &&& text.subrange(at, at + needle.len()) == needle
}

/// Whether `needle` stands anywhere in `text`.
pub open spec fn has_substring(text: Seq<char>, needle: Seq<char>) -> bool {
    exists|at: int| occurs_at(text, needle, at)
}

/// `str::contains` with a text as its pattern: whether that text is a part of the other.
#[verifier::external_body]
pub(crate) fn contains_text(text: &str, needle: &str) -> (r: bool)
    ensures
        r == has_substring(text@, needle@),
{
    text.contains(needle)
}

/// The first position at or after `from` at which `needle` stands in `text`.
pub open spec fn position_from(text: Seq<char>, needle: Seq<char>, from: int) -> Option<int>
    decreases text.len() + 1 - from,
{
    if from < 0 || from + needle.len() > text.len() {
        None
    } else if occurs_at(text, needle, from) {
        Some(from)
    } else {
        position_from(text, needle, from + 1)
    }
}

/// What stands before and after the first `separator` in `text`.
pub open spec fn split_first(text: Seq<char>, separator: Seq<char>) -> Option<(
    Seq<char>,
    Seq<char>,
)> {
    match position_from(text, separator, 0) {
        Some(at) => Some((text.take(at), text.skip(at + separator.len()))),
        None => None,
    }
}

/// A text is cut at its first separator: where `before` does not hold the separator's first
/// character, that is the one right behind `before`.
pub proof fn lemma_split_behind(before: Seq<char>, separator: Seq<char>, after: Seq<char>)
    requires
        separator.len() > 0,
        forall|i: int| 0 <= i < before.len() ==> #[trigger] before[i] != separator[0],
    ensures
        split_first(before + separator + after, separator) == Some((before, after)),
{
    let text = before + separator + after;
    assert(text.subrange(before.len() as int, (before.len() + separator.len()) as int)
        =~= separator);
    lemma_position_skips(text, separator, 0, before.len() as int);
    assert(text.take(before.len() as int) =~= before);
    assert(text.skip((before.len() + separator.len()) as int) =~= after);
}

proof fn lemma_position_skips(text: Seq<char>, needle: Seq<char>, from: int, at: int)
    requires
        needle.len() > 0,
        0 <= from <= at,
        occurs_at(text, needle, at),
        forall|i: int| from <= i < at ==> #[trigger] text[i] != needle[0],
    ensures
        position_from(text, needle, from) == Some(at),
    decreases at - from,
{
    if from < at {
        assert(!occurs_at(text, needle, from)) by {
            if occurs_at(text, needle, from) {
                assert(text.subrange(from, from + needle.len())[0] == text[from]);
            }
        }
        lemma_position_skips(text, needle, from + 1, at);
    }
}

/// `str::split_once` with a text as its pattern: what stands before and after the first
/// occurrence of the separator, or `None` where it does not occur.
#[verifier::external_body]
pub(crate) fn split_once<'a>(text: &'a str, separator: &str) -> (r: Option<(&'a str, &'a str)>)
    ensures
        match r {
            Some((before, after)) => split_first(text@, separator@) == Some((before@, after@)),
            None => split_first(text@, separator@) is None,
        },
{
    text.split_once(separator)
}

/// Whether two texts are the same.
pub fn same_text(left: &str, right: &str) -> (r: bool)
    ensures
        r == (left@ == right@),
{
    left.to_owned() == right.to_owned()
}

/// The texts that a list of text slices stands for.
pub open spec fn slices(parts: Seq<&str>) -> Seq<Seq<char>> {
    parts.map_values(|part: &str| part@)
}

/// The texts that a list of strings stands for.
pub open spec fn strings(parts: Seq<String>) -> Seq<Seq<char>> {
    parts.map_values(|part: String| part@)
}

/// `text` cut at its first separators into at most `limit` parts, the last of which is the rest.
pub open spec fn split_limited(text: Seq<char>, separator: Seq<char>, limit: nat) -> Seq<Seq<char>>
    decreases limit,
{
    if limit <= 1 {
        seq![text]
    } else {
        match split_first(text, separator) {
            Some((before, after)) => seq![before] + split_limited(
                after,
                separator,
                (limit - 1) as nat,
            ),
            None => seq![text],
        }
    }
}

/// Cuts `text` at its first separators into at most `limit` parts.
pub fn split_parts<'a>(text: &'a str, separator: &str, limit: usize) -> (parts: Vec<&'a str>)
    requires
        limit > 0,
    ensures
        slices(parts@) == split_limited(text@, separator@, limit as nat),
{
    let mut parts: Vec<&'a str> = Vec::new();
    let mut rest: &'a str = text;
    let mut left: usize = limit;
    proof {
        assert(slices(parts@) + split_limited(rest@, separator@, left as nat) =~= split_limited(
            text@,
            separator@,
            limit as nat,
        ));
    }
    while left > 1
        invariant
            left >= 1,
            slices(parts@) + split_limited(rest@, separator@, left as nat) == split_limited(
                text@,
                separator@,
                limit as nat,
            ),
        decreases left,
    {
        let ghost before_parts = parts@;
        let ghost before_rest = rest@;
        match split_once(rest, separator) {
            Some((first, after)) => {
                parts.push(first);
                rest = after;
                left = left - 1;
                proof {
                    assert(slices(parts@) =~= slices(before_parts).push(first@));
                    assert(slices(parts@) + split_limited(rest@, separator@, left as nat)
                        =~= slices(before_parts) + split_limited(
                        before_rest,
                        separator@,
                        (left + 1) as nat,
                    ));
                }
            },
            None => {
                left = 1;
            },
        }
    }
    let ghost before_parts = parts@;
    parts.push(rest);
    assert(slices(parts@) =~= slices(before_parts) + seq![rest@]);
    parts
}

/// Whether `c` is one of the ten ASCII digits.
pub open spec fn is_digit(c: char) -> bool {
    0x30 <= c as u32 <= 0x39
}

/// Whether `text` is one or more ASCII digits and nothing else.
pub open spec fn all_digits(text: Seq<char>) -> bool {
    text.len() > 0 && forall|i: int| 0 <= i < text.len() ==> is_digit(#[trigger] text[i])
}

/// The number that the digits of `text` write in base ten.
pub open spec fn decimal_value(text: Seq<char>) -> int
    decreases text.len(),
{
    if text.len() == 0 {
        0
    } else {
        decimal_value(text.drop_last()) * 10 + (text.last() as u32 - 0x30)
    }
}

/// The number that `text` writes: an optional sign, then digits and nothing else.
pub open spec fn signed_value(text: Seq<char>) -> Option<int> {
    if text.len() > 0 && text.first() == '-' {
        if all_digits(text.skip(1)) {
            Some(-decimal_value(text.skip(1)))
        } else {
            None
        }
    } else {
        unsigned_value(text)
    }
}

/// The number that `text` writes: an optional `+`, then digits and nothing else.
pub open spec fn unsigned_value(text: Seq<char>) -> Option<int> {
    let digits = if text.len() > 0 && text.first() == '+' {
        text.skip(1)
    } else {
        text
    };
    if all_digits(digits) {
        Some(decimal_value(digits))
    } else {
        None
    }
}

/// The number that `text` writes, where an `i64` can hold it.
pub open spec fn parsed_i64(text: Seq<char>) -> Option<i64> {
    match signed_value(text) {
        Some(value) => if i64::MIN <= value <= i64::MAX {
            Some(value as i64)
        } else {
            None
        },
        None => None,
    }
}

/// The number that `text` writes, where a `u64` can hold it.
pub open spec fn parsed_u64(text: Seq<char>) -> Option<u64> {
    match unsigned_value(text) {
        Some(value) => if value <= u64::MAX {
            Some(value as u64)
        } else {
            None
        },
        None => None,
    }
}

/// `i64::from_str` reads an optional `+` or `-` and then decimal digits only; any other text, and
/// a number out of range, is an error.
#[verifier::external_body]
pub(crate) fn parse_i64(text: &str) -> (r: Option<i64>)
    ensures
        r == parsed_i64(text@),
{
    text.parse::<i64>().ok()
}

/// `u64::from_str` reads an optional `+` and then decimal digits only; any other text, and a
/// number out of range, is an error.
#[verifier::external_body]
pub(crate) fn parse_u64(text: &str) -> (r: Option<u64>)
    ensures
        r == parsed_u64(text@),
{
    text.parse::<u64>().ok()
}

/// `String::from_utf8` turns valid UTF-8 into the text that it encodes, and gives an error for
/// any other bytes.
#[verifier::external_body]
pub(crate) fn utf8_text(bytes: Vec<u8>) -> (r: Option<String>)
    ensures
        r is Some <==> valid_utf8(bytes@),
        r matches Some(text) ==> text@ == decode_utf8(bytes@),
{
    String::from_utf8(bytes).ok()
}

/// The sixteen digits of base sixteen, of which base ten has the first ten.
pub open spec fn digit_char(digit: int) -> char {
    if digit < 10 {
        (0x30 + digit) as char
    } else {
        (0x61 + digit - 10) as char
    }
}

/// The digits of `n` in the given base, without leading zeros.
pub open spec fn digits_of(n: nat, base: nat) -> Seq<char>
    decreases n,
{
    if base < 2 || n < base {
        seq![digit_char(n as int)]
    } else {
        proof {
            assert(n / base < n) by (nonlinear_arith)
                requires
                    n >= base,
                    base >= 2,
            ;
        }
        digits_of(n / base, base).push(digit_char((n % base) as int))
    }
}

/// A text of one digit.
pub(crate) fn digit_text(digit: u64) -> (text: &'static str)
    requires
        digit < 16,
    ensures
        text@ == seq![digit_char(digit as int)],
{
    proof {
        reveal_strlit("0");
        reveal_strlit("1");
        reveal_strlit("2");
        reveal_strlit("3");
        reveal_strlit("4");
        reveal_strlit("5");
        reveal_strlit("6");
        reveal_strlit("7");
        reveal_strlit("8");
        reveal_strlit("9");
        reveal_strlit("a");
        reveal_strlit("b");
        reveal_strlit("c");
        reveal_strlit("d");
        reveal_strlit("e");
        reveal_strlit("f");
    }
    let text = match digit {
        0 => "0",
        1 => "1",
        2 => "2",
        3 => "3",
        4 => "4",
        5 => "5",
        6 => "6",
        7 => "7",
        8 => "8",
        9 => "9",
        10 => "a",
        11 => "b",
        12 => "c",
        13 => "d",
        14 => "e",
        _ => "f",
    };
    assert(text@ =~= seq![digit_char(digit as int)]);
    text
}

/// Writes `n` in the given base, without leading zeros.
fn based_text(n: u64, base: u64) -> (text: String)
    requires
        2 <= base <= 16,
    ensures
        text@ == digits_of(n as nat, base as nat),
    decreases n,
{
    if n < base {
        digit_text(n).to_owned()
    } else {
        assert(n / base < n) by (nonlinear_arith)
            requires
                n >= base,
                base >= 2,
        ;
        let text = based_text(n / base, base).concat(digit_text(n % base));
        assert(text@ =~= digits_of(n as nat, base as nat));
        text
    }
}

/// Writes `n` in base ten.
pub fn decimal_text(n: u64) -> (text: String)
    ensures
        text@ == digits_of(n as nat, 10),
{
    based_text(n, 10)
}

/// Writes `n` in base sixteen behind `0x`.
pub fn hex_text(n: u64) -> (text: String)
    ensures
        text@ == "0x"@ + digits_of(n as nat, 16),
{
    "0x".to_owned().concat(based_text(n, 16).as_str())
}

/// A copy of a list of texts.
pub fn copy_strings(parts: &Vec<String>) -> (r: Vec<String>)
    ensures
        strings(r@) == strings(parts@),
{
    let mut r: Vec<String> = Vec::new();
    let mut i: usize = 0;
    while i < parts.len()
        invariant
            i <= parts@.len(),
            r@.len() == i,
            forall|j: int| 0 <= j < i ==> (#[trigger] r@[j])@ == parts@[j]@,
        decreases parts@.len() - i,
    {
        r.push(parts[i].clone());
        i = i + 1;
    }
    assert(strings(r@) =~= strings(parts@));
    r
}

} // verus!
