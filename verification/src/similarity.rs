//! How alike two window titles are.

use vstd::prelude::*;
use vstd::string::*;
use vstd::utf8::*;

use crate::ratio::{reaches, Ratio};
use crate::text::{
    alphanumeric, contains_text, has_substring, lowercase, same_text, strings, trimmed,
};

verus! {

/// `text` cut at every character that is neither a letter nor a number.
pub open spec fn pieces(text: Seq<char>) -> Seq<Seq<char>>
    decreases text.len(),
{
    if text.len() == 0 {
        seq![Seq::empty()]
    } else {
        let before = pieces(text.drop_last());
        if alphanumeric(text.last()) {
            before.drop_last().push(before.last().push(text.last()))
        } else {
            before.push(Seq::empty())
        }
    }
}

/// Whether a word counts: its UTF-8 encoding has at least three bytes.
pub open spec fn significant(word: Seq<char>) -> bool {
    encode_utf8(word).len() >= 3
}

/// The words of `text` that count, in their order.
pub open spec fn words_of(text: Seq<char>) -> Seq<Seq<char>> {
    pieces(text).filter(|word: Seq<char>| significant(word))
}

/// Adds the word between two positions of `text`, if it counts.
fn push_significant(words: &mut Vec<String>, text: &str, from: usize, to: usize)
    requires
        from <= to <= text@.len(),
    ensures
        strings(final(words)@) == if significant(text@.subrange(from as int, to as int)) {
            strings(old(words)@).push(text@.subrange(from as int, to as int))
        } else {
            strings(old(words)@)
        },
{
    let word = text.substring_char(from, to);
    if word.as_bytes().len() >= 3 {
        words.push(word.to_owned());
        assert(strings(words@) =~= strings(old(words)@).push(word@));
    }
}

/// The words of `text` that count, in their order.
pub fn significant_words(text: &str) -> (words: Vec<String>)
    ensures
        strings(words@) == words_of(text@),
{
    let mut words: Vec<String> = Vec::new();
    let mut start: usize = 0;
    let mut at: usize = 0;
    let total = text.unicode_len();
    let ghost keep = |word: Seq<char>| significant(word);
    proof {
        reveal(Seq::filter);
        assert(text@.subrange(0, 0) =~= Seq::<char>::empty());
        assert(text@.take(0) =~= Seq::<char>::empty());
        assert(pieces(text@.take(0)) =~= seq![Seq::<char>::empty()]);
        assert(pieces(text@.take(0)).drop_last() =~= Seq::<Seq<char>>::empty());
        assert(strings(words@) =~= Seq::<Seq<char>>::empty());
    }
    for c in chars: text.chars()
        invariant
            chars.seq() == text@,
            at == chars.index(),
            total == text@.len(),
            start <= at <= total,
            keep == (|word: Seq<char>| significant(word)),
            pieces(text@.take(at as int)).len() > 0,
            pieces(text@.take(at as int)).last() == text@.subrange(start as int, at as int),
            strings(words@) == pieces(text@.take(at as int)).drop_last().filter(keep),
    {
        let ghost before = pieces(text@.take(at as int));
        let ghost current = text@.subrange(start as int, at as int);
        proof {
            assert(text@.take(at + 1).drop_last() =~= text@.take(at as int));
            assert(text@.take(at + 1).last() == c);
        }
        if c.is_alphanumeric() {
            at = at + 1;
            proof {
                assert(text@.subrange(start as int, at as int) =~= current.push(c));
                assert(pieces(text@.take(at as int)).drop_last() =~= before.drop_last());
            }
        } else {
            push_significant(&mut words, text, start, at);
            at = at + 1;
            start = at;
            proof {
                reveal(Seq::filter);
                assert(text@.subrange(start as int, at as int) =~= Seq::<char>::empty());
                assert(pieces(text@.take(at as int)).drop_last() =~= before);
            }
        }
    }
    push_significant(&mut words, text, start, at);
    proof {
        reveal(Seq::filter);
        assert(text@.take(at as int) =~= text@);
    }
    words
}

/// How many of `words` also stand in `others`.
pub open spec fn shared_count(words: Seq<Seq<char>>, others: Seq<Seq<char>>) -> nat {
    words.filter(|word: Seq<char>| others.contains(word)).len()
}

/// Whether `word` is one of `words`.
fn has_word(words: &Vec<String>, word: &String) -> (r: bool)
    ensures
        r == strings(words@).contains(word@),
{
    let mut i: usize = 0;
    while i < words.len()
        invariant
            i <= words@.len(),
            forall|j: int| 0 <= j < i ==> (#[trigger] words@[j])@ != word@,
        decreases words@.len() - i,
    {
        if words[i] == *word {
            assert(strings(words@)[i as int] == word@);
            return true;
        }
        i = i + 1;
    }
    assert(!strings(words@).contains(word@)) by {
        if strings(words@).contains(word@) {
            let j = strings(words@).index_of(word@);
            assert(words@[j]@ == word@);
        }
    }
    false
}

/// How many of `words` also stand in `others`.
fn count_shared(words: &Vec<String>, others: &Vec<String>) -> (n: usize)
    ensures
        n == shared_count(strings(words@), strings(others@)),
        n <= words@.len(),
{
    let ghost all = strings(words@);
    let ghost shared = |word: Seq<char>| strings(others@).contains(word);
    let mut n: usize = 0;
    let mut i: usize = 0;
    proof {
        reveal(Seq::filter);
        assert(all.take(0) =~= Seq::<Seq<char>>::empty());
    }
    while i < words.len()
        invariant
            all == strings(words@),
            shared == (|word: Seq<char>| strings(others@).contains(word)),
            n <= i <= words@.len(),
            n == all.take(i as int).filter(shared).len(),
        decreases words@.len() - i,
    {
        proof {
            reveal(Seq::filter);
            assert(all.take(i + 1).drop_last() =~= all.take(i as int));
            assert(all.take(i + 1).last() == words@[i as int]@);
        }
        if has_word(others, &words[i]) {
            n = n + 1;
        }
        i = i + 1;
    }
    assert(all.take(i as int) =~= all);
    n
}

/// The likeness of two titles in lower case and without white space around them, as a numerator
/// and a denominator.
pub open spec fn lowered_likeness(left: Seq<char>, right: Seq<char>) -> (nat, nat) {
    let left_words = words_of(left);
    let right_words = words_of(right);
    if left.len() == 0 || right.len() == 0 {
        (0, 1)
    } else if left == right {
        (1, 1)
    } else if has_substring(left, right) || has_substring(right, left) {
        (92, 100)
    } else if left_words.len() == 0 || right_words.len() == 0 {
        (0, 1)
    } else {
        let larger = if left_words.len() >= right_words.len() {
            left_words.len()
        } else {
            right_words.len()
        };
        (shared_count(left_words, right_words), larger)
    }
}

/// The likeness of two titles, whatever their case and the white space around them.
pub open spec fn title_likeness(left: Seq<char>, right: Seq<char>) -> (nat, nat) {
    lowered_likeness(lowercase(trimmed(left)), lowercase(trimmed(right)))
}

/// The likeness of two titles that are already in lower case and trimmed: none where one of them
/// is empty, whole where they are the same, 92 hundredths where one is a part of the other, and
/// otherwise the share of the words that they have in common.
pub fn lowered_similarity(left: &str, right: &str) -> (r: Ratio)
    ensures
        (r.numerator as nat, r.denominator as nat) == lowered_likeness(left@, right@),
{
    if left.is_empty() || right.is_empty() {
        return Ratio { numerator: 0, denominator: 1 };
    }
    if same_text(left, right) {
        return Ratio { numerator: 1, denominator: 1 };
    }
    if contains_text(left, right) || contains_text(right, left) {
        return Ratio::hundredths(92);
    }
    let left_words = significant_words(left);
    let right_words = significant_words(right);
    if left_words.len() == 0 || right_words.len() == 0 {
        return Ratio { numerator: 0, denominator: 1 };
    }
    let numerator = count_shared(&left_words, &right_words);
    let denominator = if left_words.len() >= right_words.len() {
        left_words.len()
    } else {
        right_words.len()
    };
    Ratio { numerator, denominator }
}

/// The likeness of two titles, whatever their case and the white space around them.
pub fn title_similarity(left: &str, right: &str) -> (r: Ratio)
    ensures
        (r.numerator as nat, r.denominator as nat) == title_likeness(left@, right@),
{
    let left = left.trim().to_lowercase();
    let right = right.trim().to_lowercase();
    lowered_similarity(left.as_str(), right.as_str())
}

/// Likeness of titles is a share: its denominator is not zero, and it is at most the whole.
pub proof fn law_title_likeness_is_a_share(left: Seq<char>, right: Seq<char>)
    ensures
        title_likeness(left, right).0 <= title_likeness(left, right).1,
        0 < title_likeness(left, right).1,
{
    let l = words_of(lowercase(trimmed(left)));
    let r = words_of(lowercase(trimmed(right)));
    l.lemma_filter_len(|word: Seq<char>| r.contains(word));
}

/// A title that is not blank is wholly like itself in any case and with any white space around it,
/// and a title that is a part of the other, or has it as a part, is at least nine tenths like it.
pub proof fn law_same_or_contained_titles(left: Seq<char>, right: Seq<char>)
    requires
        lowercase(trimmed(left)).len() > 0,
        lowercase(trimmed(right)).len() > 0,
    ensures
        lowercase(trimmed(left)) == lowercase(trimmed(right)) ==> title_likeness(left, right) == (
            1nat,
            1nat,
        ),
        has_substring(lowercase(trimmed(left)), lowercase(trimmed(right))) || has_substring(
            lowercase(trimmed(right)),
            lowercase(trimmed(left)),
        ) ==> reaches(
            title_likeness(left, right).0 as int,
            title_likeness(left, right).1 as int,
            90,
        ),
{
}

} // verus!
