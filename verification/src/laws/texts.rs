//! What holds of texts: trimming, case, cutting, and the numbers that they write.

use vstd::prelude::*;
use vstd::utf8::*;

use crate::text::{
    all_digits, alphanumeric, decimal_value, digits_of, has_substring, is_digit, lowercase,
    occurs_at, parsed_i64, parsed_u64, position_from, split_first, split_limited, trimmed,
    trimmed_end, trimmed_start, white_space,
};

verus! {

/// White space is the blank, the control characters from tab to carriage return, the next-line
/// character, and the spaces and separators of Unicode.
pub proof fn law_white_space(c: char)
    ensures
        white_space(c) <==> (c == ' ' || c == '\t' || c == '\n' || c == '\u{b}' || c == '\u{c}' || c
            == '\r' || c == '\u{85}' || c == '\u{a0}' || c == '\u{1680}' || ('\u{2000}' <= c
            <= '\u{200a}') || c == '\u{2028}' || c == '\u{2029}' || c == '\u{202f}' || c == '\u{205f}'
            || c == '\u{3000}'),
{
}

/// Trimming takes away the white space around a text, all of it and nothing else.
pub proof fn law_trimmed(before: Seq<char>, bare: Seq<char>, after: Seq<char>)
    requires
        forall|i: int| 0 <= i < before.len() ==> white_space(#[trigger] before[i]),
        forall|i: int| 0 <= i < after.len() ==> white_space(#[trigger] after[i]),
        bare.len() > 0 ==> !white_space(bare.first()) && !white_space(bare.last()),
    ensures
        trimmed(before + bare + after) == bare,
{
    if bare.len() == 0 {
        let all = before + bare + after;
        assert forall|i: int| 0 <= i < all.len() implies white_space(#[trigger] all[i]) by {
            if i < before.len() {
                assert(all[i] == before[i]);
            } else {
                assert(all[i] == after[i - before.len()]);
            }
        }
        lemma_all_white(all);
        assert(trimmed_end(Seq::<char>::empty()) =~= Seq::empty());
        assert(bare =~= Seq::empty());
    } else {
        lemma_start(before, bare + after);
        assert(before + bare + after =~= before + (bare + after));
        lemma_end(bare, after);
    }
}

proof fn lemma_all_white(text: Seq<char>)
    requires
        forall|i: int| 0 <= i < text.len() ==> white_space(#[trigger] text[i]),
    ensures
        trimmed_start(text) == Seq::<char>::empty(),
    decreases text.len(),
{
    if text.len() > 0 {
        let rest = text.drop_first();
        assert forall|i: int| 0 <= i < rest.len() implies white_space(#[trigger] rest[i]) by {
            assert(rest[i] == text[i + 1]);
        }
        lemma_all_white(rest);
        assert(white_space(text[0]));
    } else {
        assert(text =~= Seq::empty());
    }
}

proof fn lemma_start(before: Seq<char>, rest: Seq<char>)
    requires
        forall|i: int| 0 <= i < before.len() ==> white_space(#[trigger] before[i]),
        rest.len() > 0,
        !white_space(rest.first()),
    ensures
        trimmed_start(before + rest) == rest,
    decreases before.len(),
{
    if before.len() > 0 {
        let later = before.drop_first();
        assert forall|i: int| 0 <= i < later.len() implies white_space(#[trigger] later[i]) by {
            assert(later[i] == before[i + 1]);
        }
        assert((before + rest).drop_first() =~= later + rest);
        assert((before + rest).first() == before[0]);
        lemma_start(later, rest);
    } else {
        assert(before + rest =~= rest);
    }
}

proof fn lemma_end(rest: Seq<char>, after: Seq<char>)
    requires
        forall|i: int| 0 <= i < after.len() ==> white_space(#[trigger] after[i]),
        rest.len() > 0,
        !white_space(rest.last()),
    ensures
        trimmed_end(rest + after) == rest,
    decreases after.len(),
{
    if after.len() > 0 {
        let earlier = after.drop_last();
        assert forall|i: int| 0 <= i < earlier.len() implies white_space(#[trigger] earlier[i])
            by {
            assert(earlier[i] == after[i]);
        }
        assert((rest + after).drop_last() =~= rest + earlier);
        assert((rest + after).last() == after[after.len() - 1]);
        lemma_end(rest, earlier);
    } else {
        assert(rest + after =~= rest);
    }
}

/// In ASCII, lower case makes the letters `A` to `Z` the letters `a` to `z` and leaves every other
/// character as it is.
pub proof fn law_lowercase(text: Seq<char>)
    requires
        is_ascii_chars(text),
    ensures
        lowercase(text).len() == text.len(),
        forall|i: int|
            0 <= i < text.len() ==> (if 'A' <= #[trigger] text[i] <= 'Z' {
                lowercase(text)[i] as u32 == text[i] as u32 + ('a' as u32 - 'A' as u32)
            } else {
                lowercase(text)[i] == text[i]
            }),
{
}

/// In ASCII, the letters and numbers are `0` to `9`, `A` to `Z` and `a` to `z`.
pub proof fn law_alphanumeric(c: char)
    requires
        c <= '\u{7f}',
    ensures
        alphanumeric(c) <==> ('0' <= c <= '9' || 'A' <= c <= 'Z' || 'a' <= c <= 'z'),
{
}

/// A text is a part of another just where that one is made of something, the text, and something
/// more.
pub proof fn law_has_substring(text: Seq<char>, needle: Seq<char>)
    ensures
        has_substring(text, needle) <==> exists|before: Seq<char>, after: Seq<char>|
            text == #[trigger] (before + needle + after),
{
    if has_substring(text, needle) {
        let at = choose|at: int| occurs_at(text, needle, at);
        assert(text =~= text.take(at) + needle + text.skip(at + needle.len())) by {
            assert forall|i: int| 0 <= i < needle.len() implies text[at + i] == needle[i] by {
                assert(text.subrange(at, at + needle.len())[i] == needle[i]);
            }
        }
    }
    if exists|before: Seq<char>, after: Seq<char>| text == #[trigger] (before + needle + after) {
        let (before, after) = choose|before: Seq<char>, after: Seq<char>|
            text == #[trigger] (before + needle + after);
        let at = before.len() as int;
        assert(text.subrange(at, at + needle.len()) =~= needle);
        assert(occurs_at(text, needle, at));
    }
}

/// A text is cut at its first separator: what comes before and after it makes up the text, and no
/// separator starts earlier. A text that is not cut holds no separator.
pub proof fn law_split_first(text: Seq<char>, separator: Seq<char>)
    ensures
        match split_first(text, separator) {
            Some((before, after)) => {
                &&& text == before + separator + after
                &&& forall|at: int|
                    0 <= at < before.len() ==> #[trigger] text.subrange(at, at + separator.len())
                        != separator
            },
            None => forall|before: Seq<char>, after: Seq<char>|
                text != #[trigger] (before + separator + after),
        },
{
    lemma_position(text, separator, 0);
    if let Some(at) = position_from(text, separator, 0) {
        assert(text =~= text.take(at) + separator + text.skip(at + separator.len())) by {
            assert forall|i: int| 0 <= i < separator.len() implies text[at + i] == separator[i] by {
                assert(text.subrange(at, at + separator.len())[i] == separator[i]);
            }
        }
    } else {
        assert forall|before: Seq<char>, after: Seq<char>| text != #[trigger] (before + separator
            + after) by {
            if text == before + separator + after {
                let at = before.len() as int;
                assert(text.subrange(at, at + separator.len()) =~= separator);
                assert(false);
            }
        }
    }
}

proof fn lemma_position(text: Seq<char>, needle: Seq<char>, from: int)
    requires
        0 <= from,
    ensures
        match position_from(text, needle, from) {
            Some(found) => {
                &&& from <= found
                &&& found + needle.len() <= text.len()
                &&& text.subrange(found, found + needle.len()) == needle
                &&& forall|at: int|
                    from <= at < found ==> #[trigger] text.subrange(at, at + needle.len()) != needle
            },
            None => forall|at: int|
                from <= at && at + needle.len() <= text.len() ==> #[trigger] text.subrange(
                    at,
                    at + needle.len(),
                ) != needle,
        },
    decreases text.len() + 1 - from,
{
    if from + needle.len() <= text.len() {
        lemma_position(text, needle, from + 1);
    }
}

/// Cut into at most so many parts, a text has the parts that cutting it again and again at the
/// first separator gives, and put together again with separators they are the text.
pub proof fn law_split_limited(text: Seq<char>, separator: Seq<char>, limit: nat)
    requires
        limit > 0,
    ensures
        1 <= split_limited(text, separator, limit).len() <= limit,
        limit == 1 || split_first(text, separator) is None ==> split_limited(text, separator, limit)
            == seq![text],
        limit > 1 ==> (split_first(text, separator) matches Some((before, after))
            ==> split_limited(text, separator, limit) == seq![before] + split_limited(
            after,
            separator,
            (limit - 1) as nat,
        )),
    decreases limit,
{
    if limit > 1 {
        if let Some((before, after)) = split_first(text, separator) {
            law_split_limited(after, separator, (limit - 1) as nat);
        }
    }
}

/// A digit behind digits counts ten times less: the number that a text of digits writes.
pub proof fn law_decimal_value(text: Seq<char>, digit: char)
    requires
        '0' <= digit <= '9',
    ensures
        decimal_value(Seq::empty()) == 0,
        decimal_value(text.push(digit)) == 10 * decimal_value(text) + (digit as u32 - '0' as u32),
{
    assert(text.push(digit).drop_last() =~= text);
}

/// Digits write a number; a `+` in front changes nothing, a `-` turns its sign and is for signed
/// numbers only. A number that does not fit is none.
pub proof fn law_numbers(digits: Seq<char>)
    requires
        digits.len() > 0,
        forall|i: int| 0 <= i < digits.len() ==> '0' <= #[trigger] digits[i] <= '9',
    ensures
        parsed_u64(digits) == (if decimal_value(digits) <= u64::MAX {
            Some(decimal_value(digits) as u64)
        } else {
            None
        }),
        parsed_u64(seq!['+'] + digits) == parsed_u64(digits),
        parsed_u64(seq!['-'] + digits) is None,
        parsed_i64(digits) == (if decimal_value(digits) <= i64::MAX {
            Some(decimal_value(digits) as i64)
        } else {
            None
        }),
        parsed_i64(seq!['+'] + digits) == parsed_i64(digits),
        parsed_i64(seq!['-'] + digits) == (if -decimal_value(digits) >= i64::MIN {
            Some((-decimal_value(digits)) as i64)
        } else {
            None
        }),
{
    lemma_decimal_value_is_natural(digits);
    assert((seq!['+'] + digits).skip(1) =~= digits);
    assert((seq!['-'] + digits).skip(1) =~= digits);
    assert(digits[0] == digits.first());
    assert((seq!['-'] + digits)[0] == '-');
}

proof fn lemma_decimal_value_is_natural(digits: Seq<char>)
    requires
        forall|i: int| 0 <= i < digits.len() ==> '0' <= #[trigger] digits[i] <= '9',
    ensures
        decimal_value(digits) >= 0,
    decreases digits.len(),
{
    if digits.len() > 0 {
        let before = digits.drop_last();
        assert forall|i: int| 0 <= i < before.len() implies '0' <= #[trigger] before[i] <= '9' by {
            assert(before[i] == digits[i]);
        }
        lemma_decimal_value_is_natural(before);
        assert(digits[digits.len() - 1] == digits.last());
    }
}

/// What is not an optional sign and then digits, and at least one, writes no number.
pub proof fn law_no_numbers(text: Seq<char>, at: int, c: char)
    requires
        text.len() > 0 ==> 0 <= at < text.len() && text[at] == c && (c < '0' || c > '9'),
        text.len() > 1 && at == 0 ==> text[0] != '+' && text[0] != '-',
    ensures
        parsed_u64(text) is None,
        parsed_i64(text) is None,
{
    if text.len() > 0 {
        let rest = text.skip(1);
        assert(!is_digit(text[at]));
        assert(!all_digits(text));
        if at > 0 {
            assert(rest[at - 1] == text[at]);
            assert(!all_digits(rest));
        }
    }
}

/// What a text of digits in base sixteen writes, with `a` to `f` for ten to fifteen.
pub open spec fn hex_value(text: Seq<char>) -> int
    decreases text.len(),
{
    if text.len() == 0 {
        0
    } else {
        hex_value(text.drop_last()) * 16 + (if '0' <= text.last() <= '9' {
            text.last() as u32 - '0' as u32
        } else {
            text.last() as u32 - 'a' as u32 + 10
        })
    }
}

/// A number written in base ten, or in base sixteen, is read as that number again. It has digits
/// only, and no zero in front unless it is zero.
pub proof fn law_digits(n: nat)
    ensures
        decimal_value(digits_of(n, 10)) == n,
        hex_value(digits_of(n, 16)) == n,
        forall|i: int|
            0 <= i < digits_of(n, 10).len() ==> '0' <= #[trigger] digits_of(n, 10)[i] <= '9',
        forall|i: int|
            0 <= i < digits_of(n, 16).len() ==> ('0' <= #[trigger] digits_of(n, 16)[i] <= '9' || 'a'
                <= digits_of(n, 16)[i] <= 'f'),
        digits_of(n, 10).len() > 0,
        digits_of(n, 16).len() > 0,
        n > 0 ==> digits_of(n, 10)[0] != '0' && digits_of(n, 16)[0] != '0',
{
    lemma_ten(n);
    lemma_sixteen(n);
}

proof fn lemma_ten(n: nat)
    ensures
        decimal_value(digits_of(n, 10)) == n,
        forall|i: int|
            0 <= i < digits_of(n, 10).len() ==> '0' <= #[trigger] digits_of(n, 10)[i] <= '9',
        digits_of(n, 10).len() > 0,
        n > 0 ==> digits_of(n, 10)[0] != '0',
    decreases n,
{
    let text = digits_of(n, 10);
    if n >= 10 {
        lemma_ten(n / 10);
        assert(text.drop_last() =~= digits_of(n / 10, 10));
        assert(text[0] == digits_of(n / 10, 10)[0]);
    } else {
        assert(text.drop_last() =~= Seq::<char>::empty());
        assert(decimal_value(text.drop_last()) == 0);
    }
}

proof fn lemma_sixteen(n: nat)
    ensures
        hex_value(digits_of(n, 16)) == n,
        forall|i: int|
            0 <= i < digits_of(n, 16).len() ==> ('0' <= #[trigger] digits_of(n, 16)[i] <= '9' || 'a'
                <= digits_of(n, 16)[i] <= 'f'),
        digits_of(n, 16).len() > 0,
        n > 0 ==> digits_of(n, 16)[0] != '0',
    decreases n,
{
    let text = digits_of(n, 16);
    if n >= 16 {
        lemma_sixteen(n / 16);
        assert(text.drop_last() =~= digits_of(n / 16, 16));
        assert(text[0] == digits_of(n / 16, 16)[0]);
    } else {
        assert(text.drop_last() =~= Seq::<char>::empty());
        assert(hex_value(text.drop_last()) == 0);
    }
}

} // verus!
