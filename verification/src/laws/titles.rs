//! What holds of titles: their words, and how alike they are.

use vstd::prelude::*;
use vstd::utf8::encode_utf8;

use crate::laws::texts::law_has_substring;
use crate::similarity::{pieces, shared_count, significant, title_likeness, words_of};
use crate::text::{alphanumeric, lowercase, trimmed};

verus! {

/// A run of letters and numbers is one word, and counts where its UTF-8 encoding has three bytes or
/// more.
pub proof fn law_one_word(word: Seq<char>)
    requires
        forall|i: int| 0 <= i < word.len() ==> alphanumeric(#[trigger] word[i]),
    ensures
        words_of(word) == (if encode_utf8(word).len() >= 3 {
            seq![word]
        } else {
            seq![]
        }),
{
    lemma_one_piece(word);
    lemma_kept_last(Seq::empty(), word);
    assert(Seq::<Seq<char>>::empty().push(word) =~= seq![word]);
    reveal(Seq::filter);
    assert(words_of(word) =~= (if encode_utf8(word).len() >= 3 {
        seq![word]
    } else {
        seq![]
    }));
}

/// Any other character ends a word: the words of a text are those in front of its last such
/// character, and then the run of letters and numbers behind it, where that counts.
pub proof fn law_words(before: Seq<char>, c: char, word: Seq<char>)
    requires
        !alphanumeric(c),
        forall|i: int| 0 <= i < word.len() ==> alphanumeric(#[trigger] word[i]),
    ensures
        words_of(before.push(c) + word) == words_of(before) + (if encode_utf8(word).len() >= 3 {
            seq![word]
        } else {
            seq![]
        }),
{
    lemma_last_piece(before, c, word);
    lemma_kept_last(pieces(before), word);
    assert(words_of(before.push(c) + word) =~= words_of(before) + (if encode_utf8(word).len() >= 3 {
        seq![word]
    } else {
        seq![]
    }));
}

proof fn lemma_kept_last(list: Seq<Seq<char>>, word: Seq<char>)
    ensures
        ({
            let counts = |word: Seq<char>| significant(word);
            list.push(word).filter(counts) == (if encode_utf8(word).len() >= 3 {
                list.filter(counts).push(word)
            } else {
                list.filter(counts)
            })
        }),
{
    reveal(Seq::filter);
    assert(list.push(word).drop_last() =~= list);
}

proof fn lemma_one_piece(word: Seq<char>)
    requires
        forall|i: int| 0 <= i < word.len() ==> alphanumeric(#[trigger] word[i]),
    ensures
        pieces(word) == seq![word],
    decreases word.len(),
{
    if word.len() > 0 {
        let shorter = word.drop_last();
        assert forall|i: int| 0 <= i < shorter.len() implies alphanumeric(#[trigger] shorter[i]) by {
            assert(shorter[i] == word[i]);
        }
        lemma_one_piece(shorter);
        assert(alphanumeric(word[word.len() - 1]));
        assert(shorter.push(word.last()) =~= word);
        assert(pieces(word) =~= seq![word]);
    } else {
        assert(word =~= Seq::empty());
    }
}

proof fn lemma_last_piece(before: Seq<char>, c: char, word: Seq<char>)
    requires
        !alphanumeric(c),
        forall|i: int| 0 <= i < word.len() ==> alphanumeric(#[trigger] word[i]),
    ensures
        pieces(before.push(c) + word) == pieces(before).push(word),
    decreases word.len(),
{
    let text = before.push(c) + word;
    if word.len() > 0 {
        let shorter = word.drop_last();
        assert forall|i: int| 0 <= i < shorter.len() implies alphanumeric(#[trigger] shorter[i]) by {
            assert(shorter[i] == word[i]);
        }
        lemma_last_piece(before, c, shorter);
        assert(text.drop_last() =~= before.push(c) + shorter);
        assert(text.last() == word[word.len() - 1]);
        assert(shorter.push(word.last()) =~= word);
        assert(pieces(text) =~= pieces(before).push(word));
    } else {
        assert(text =~= before.push(c));
        assert(text.drop_last() =~= before);
        assert(word =~= Seq::empty());
    }
}

/// Each word that also stands in the other list counts once for each time that it comes.
pub proof fn law_shared_words(words: Seq<Seq<char>>, word: Seq<char>, others: Seq<Seq<char>>)
    ensures
        shared_count(Seq::empty(), others) == 0,
        (exists|i: int| 0 <= i < others.len() && #[trigger] others[i] == word) ==> shared_count(
            words.push(word),
            others,
        ) == shared_count(words, others) + 1,
        (forall|i: int| 0 <= i < others.len() ==> #[trigger] others[i] != word) ==> shared_count(
            words.push(word),
            others,
        ) == shared_count(words, others),
{
    reveal(Seq::filter);
    assert(words.push(word).drop_last() =~= words);
}

/// How alike two titles are, by the titles without the white space around them and in lower case:
/// not at all where one is blank, wholly where they are the same, 92 hundredths where one is a part
/// of the other, and else the words that the first shares with the second, of the larger number of
/// words.
pub proof fn law_title_likeness(left: Seq<char>, right: Seq<char>)
    ensures
        ({
            let l = lowercase(trimmed(left));
            let r = lowercase(trimmed(right));
            let contained = (exists|before: Seq<char>, after: Seq<char>|
                l == #[trigger] (before + r + after)) || (exists|
                before: Seq<char>,
                after: Seq<char>,
            | r == #[trigger] (before + l + after));
            let words = words_of(l).len();
            let others = words_of(r).len();
            let (shared, all) = title_likeness(left, right);
            &&& all > 0
            &&& l.len() == 0 || r.len() == 0 ==> shared == 0
            &&& l.len() > 0 && r.len() > 0 && l == r ==> shared == all
            &&& l.len() > 0 && r.len() > 0 && l != r && contained ==> 100 * shared == 92 * all
            &&& l.len() > 0 && r.len() > 0 && !contained && (words == 0 || others == 0) ==> shared
                == 0
            &&& l.len() > 0 && r.len() > 0 && !contained && words > 0 && others > 0 ==> {
                &&& shared == shared_count(words_of(l), words_of(r))
                &&& all == (if words > others {
                    words
                } else {
                    others
                })
            }
        }),
{
    let l = lowercase(trimmed(left));
    let r = lowercase(trimmed(right));
    law_has_substring(l, r);
    law_has_substring(r, l);
    if l == r {
        assert(l =~= Seq::<char>::empty() + r + Seq::<char>::empty());
    }
}

} // verus!
