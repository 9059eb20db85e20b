//! What holds of every canonical form.

use crate::normalizer::{
    blank_punctuation, drawn_from, edition_stripped, fold_accent, fold_accents, is_settled,
    normalized, punctuation_blanked,
};
use crate::text::{
    flush, has_no_outer_space, is_space_char, join_with, join_words, lemma_trim_without_outer_space,
    lowercase_of, split_words, trimmed, words_from,
};
use vstd::prelude::*;

verus! {

/// A character that folding accents and blanking punctuation leave alone.
pub open spec fn is_plain_char(c: char) -> bool {
    blank_punctuation(c) == c && fold_accent(c) == c
}

/// A text of plain characters.
pub open spec fn is_plain_text(s: Seq<char>) -> bool {
    forall|i: int| 0 <= i < s.len() ==> is_plain_char(#[trigger] s[i])
}

/// A word: not empty, and without whitespace.
pub open spec fn is_word(w: Seq<char>) -> bool {
    w.len() > 0 && forall|i: int| 0 <= i < w.len() ==> !is_space_char(#[trigger] w[i])
}

/// Words made of plain characters.
pub open spec fn are_plain_words(words: Seq<Seq<char>>) -> bool {
    forall|k: int|
        0 <= k < words.len() ==> is_word(#[trigger] words[k]) && is_plain_text(words[k])
}

/// Folding an accent a second time changes nothing.
pub proof fn lemma_fold_accent_is_stable(c: char)
    ensures
        fold_accent(fold_accent(c)) == fold_accent(c),
{
}

/// Blanking punctuation a second time changes nothing.
pub proof fn lemma_blank_punctuation_is_stable(c: char)
    ensures
        blank_punctuation(blank_punctuation(c)) == blank_punctuation(c),
{
}

/// The text that is split into words when `s` is normalised is plain.
pub proof fn lemma_blanked_text_is_plain(s: Seq<char>)
    ensures
        is_plain_text(punctuation_blanked(edition_stripped(fold_accents(lowercase_of(s))))),
{
    reveal_strlit(" ");
    let folded = fold_accents(lowercase_of(s));
    let stripped = edition_stripped(folded);
    let blanked = punctuation_blanked(stripped);
    assert(drawn_from(stripped, folded + " "@)) by {
        assert forall|i: int| 0 <= i < folded.len() implies (folded + " "@).contains(
            #[trigger] folded[i],
        ) by {
            assert((folded + " "@)[i] == folded[i]);
        }
    }
    assert forall|i: int| 0 <= i < blanked.len() implies is_plain_char(#[trigger] blanked[i]) by {
        let c = stripped[i];
        lemma_blank_punctuation_is_stable(c);
        assert((folded + " "@).contains(c));
        let j = choose|j: int| 0 <= j < (folded + " "@).len() && (folded + " "@)[j] == c;
        if j < folded.len() {
            assert(c == fold_accent(lowercase_of(s)[j]));
            lemma_fold_accent_is_stable(lowercase_of(s)[j]);
        } else {
            assert(c == ' ');
        }
    }
}

/// The words of a plain text are plain words, whatever plain word was begun
/// before it.
pub proof fn lemma_words_are_plain(s: Seq<char>, cur: Seq<char>)
    requires
        is_plain_text(s),
        is_plain_text(cur),
        forall|i: int| 0 <= i < cur.len() ==> !is_space_char(#[trigger] cur[i]),
    ensures
        are_plain_words(words_from(s, cur)),
    decreases s.len(),
{
    if s.len() == 0 {
    } else if is_space_char(s[0]) {
        let rest = s.drop_first();
        assert(is_plain_text(rest)) by {
            assert forall|i: int| 0 <= i < rest.len() implies is_plain_char(#[trigger] rest[i]) by {
                assert(rest[i] == s[i + 1]);
            }
        }
        lemma_words_are_plain(rest, Seq::empty());
        let tail = words_from(rest, Seq::empty());
        let all = flush(cur) + tail;
        assert forall|k: int| 0 <= k < all.len() implies is_word(#[trigger] all[k])
            && is_plain_text(all[k]) by {
            if k < flush(cur).len() {
                assert(all[k] == cur);
            } else {
                assert(all[k] == tail[k - flush(cur).len()]);
            }
        }
    } else {
        let rest = s.drop_first();
        assert(is_plain_text(rest)) by {
            assert forall|i: int| 0 <= i < rest.len() implies is_plain_char(#[trigger] rest[i]) by {
                assert(rest[i] == s[i + 1]);
            }
        }
        let next = cur.push(s[0]);
        assert(is_plain_text(next)) by {
            assert forall|i: int| 0 <= i < next.len() implies is_plain_char(#[trigger] next[i]) by {
                if i < cur.len() {
                    assert(next[i] == cur[i]);
                }
            }
        }
        assert forall|i: int| 0 <= i < next.len() implies !is_space_char(#[trigger] next[i]) by {
            if i < cur.len() {
                assert(next[i] == cur[i]);
            }
        }
        lemma_words_are_plain(rest, next);
    }
}

/// Plain words joined by spaces make a plain text.
pub proof fn lemma_joined_words_are_plain(words: Seq<Seq<char>>)
    requires
        are_plain_words(words),
    ensures
        is_plain_text(join_words(words)),
    decreases words.len(),
{
    if words.len() == 0 {
    } else if words.len() == 1 {
    } else {
        let front = words.drop_last();
        assert(are_plain_words(front)) by {
            assert forall|k: int| 0 <= k < front.len() implies is_word(#[trigger] front[k])
                && is_plain_text(front[k]) by {
                assert(front[k] == words[k]);
            }
        }
        lemma_joined_words_are_plain(front);
        let head = join_words(front);
        let last = words.last();
        let all = join_words(words);
        assert(all == head + seq![' '] + last);
        assert forall|i: int| 0 <= i < all.len() implies is_plain_char(#[trigger] all[i]) by {
            if i < head.len() {
                assert(all[i] == head[i]);
            } else if i == head.len() {
                assert(all[i] == ' ');
            } else {
                assert(all[i] == last[i - head.len() - 1]);
            }
        }
    }
}

/// Reading on after a word has been read is reading with the word begun.
pub proof fn lemma_words_after_word(w: Seq<char>, rest: Seq<char>, cur: Seq<char>)
    requires
        forall|i: int| 0 <= i < w.len() ==> !is_space_char(#[trigger] w[i]),
    ensures
        words_from(w + rest, cur) == words_from(rest, cur + w),
    decreases w.len(),
{
    if w.len() == 0 {
        assert(w + rest =~= rest);
        assert(cur + w =~= cur);
    } else {
        let tail = w.drop_first();
        assert((w + rest).drop_first() =~= tail + rest);
        assert((w + rest)[0] == w[0]);
        assert forall|i: int| 0 <= i < tail.len() implies !is_space_char(#[trigger] tail[i]) by {
            assert(tail[i] == w[i + 1]);
        }
        lemma_words_after_word(tail, rest, cur.push(w[0]));
        assert(cur.push(w[0]) + tail =~= cur + w);
    }
}

/// A list of words joined by spaces begins with its first word; a space and
/// the rest joined follow if there is a rest.
pub proof fn lemma_join_from_the_left(words: Seq<Seq<char>>)
    requires
        words.len() > 0,
    ensures
        join_words(words) == if words.len() == 1 {
            words[0]
        } else {
            words[0] + seq![' '] + join_words(words.drop_first())
        },
    decreases words.len(),
{
    if words.len() == 1 {
    } else if words.len() == 2 {
        assert(words.drop_last().len() == 1);
        assert(words.drop_first().len() == 1);
        assert(join_with(words.drop_last(), seq![' ']) == words[0]);
        assert(join_with(words.drop_first(), seq![' ']) == words[1]);
    } else {
        let front = words.drop_last();
        lemma_join_from_the_left(front);
        let inner = words.drop_first();
        assert(front.drop_first() =~= inner.drop_last());
        assert(inner.last() == words.last());
        assert(join_words(inner) == join_words(inner.drop_last()) + seq![' '] + inner.last());
        assert(join_words(words) =~= words[0] + seq![' '] + join_words(inner));
    }
}

/// A word by itself splits into itself.
pub proof fn lemma_split_of_word(word: Seq<char>)
    requires
        is_word(word),
    ensures
        split_words(word) == seq![word],
{
    let empty = Seq::<char>::empty();
    assert(word + empty =~= word);
    lemma_words_after_word(word, empty, empty);
    assert(empty + word =~= word);
    assert(words_from(empty, word) =~= seq![word]);
}

/// A word, a space and more text split into the word and the words of the
/// rest.
pub proof fn lemma_split_after_word(word: Seq<char>, rest: Seq<char>)
    requires
        is_word(word),
    ensures
        split_words(word + seq![' '] + rest) == seq![word] + split_words(rest),
{
    let empty = Seq::<char>::empty();
    let tail = seq![' '] + rest;
    assert(word + seq![' '] + rest =~= word + tail);
    lemma_words_after_word(word, tail, empty);
    assert(empty + word =~= word);
    assert(tail.drop_first() =~= rest);
    assert(tail[0] == ' ');
    assert(is_space_char(' '));
    assert(words_from(tail, word) == flush(word) + words_from(tail.drop_first(), empty));
    assert(flush(word) =~= seq![word]);
}

/// Splitting what was joined gives the words back.
pub proof fn lemma_split_of_joined(words: Seq<Seq<char>>)
    requires
        forall|k: int| 0 <= k < words.len() ==> is_word(#[trigger] words[k]),
    ensures
        split_words(join_words(words)) == words,
    decreases words.len(),
{
    if words.len() == 0 {
        assert(split_words(join_words(words)) =~= words);
    } else {
        lemma_join_from_the_left(words);
        let first = words[0];
        assert(is_word(first));
        if words.len() == 1 {
            lemma_split_of_word(first);
            assert(seq![first] =~= words);
        } else {
            let rest = words.drop_first();
            assert forall|k: int| 0 <= k < rest.len() implies is_word(#[trigger] rest[k]) by {
                assert(rest[k] == words[k + 1]);
            }
            lemma_split_of_joined(rest);
            lemma_split_after_word(first, join_words(rest));
            assert(seq![first] + rest =~= words);
        }
    }
}

/// Normalising a canonical form gives the same form again, provided that
/// the form is settled: lower-casing and the removal of edition phrases find
/// nothing more to do in it. Where blanked punctuation has brought a number
/// next to the word "vol", the form is not settled, and a second pass
/// removes what the first could not see.
pub proof fn lemma_normalize_is_idempotent(s: Seq<char>)
    requires
        is_settled(normalized(s)),
    ensures
        normalized(normalized(s)) == normalized(s),
{
    let blanked = punctuation_blanked(edition_stripped(fold_accents(lowercase_of(s))));
    let words = split_words(blanked);
    let n = normalized(s);
    lemma_blanked_text_is_plain(s);
    lemma_words_are_plain(blanked, Seq::empty());
    lemma_joined_words_are_plain(words);
    assert(fold_accents(n) =~= n);
    assert(punctuation_blanked(n) =~= n);
    lemma_split_of_joined(words);
}

/// Words joined by spaces neither begin nor end with whitespace.
pub proof fn lemma_joined_words_have_no_outer_space(words: Seq<Seq<char>>)
    requires
        forall|k: int| 0 <= k < words.len() ==> is_word(#[trigger] words[k]),
    ensures
        has_no_outer_space(join_words(words)),
        words.len() > 0 ==> join_words(words).len() > 0,
{
    if words.len() > 0 {
        lemma_join_from_the_left(words);
        assert(is_word(words[0]));
        assert(is_word(words[words.len() - 1]));
        let joined = join_words(words);
        assert(joined[0] == words[0][0]);
        if words.len() > 1 {
            let head = join_words(words.drop_last());
            let last = words.last();
            assert(joined == head + seq![' '] + last);
            assert(joined[joined.len() - 1] == last[last.len() - 1]);
        }
    }
}

/// A canonical form neither begins nor ends with whitespace: trimming it
/// changes nothing.
pub proof fn lemma_normalized_is_trimmed(s: Seq<char>)
    ensures
        has_no_outer_space(normalized(s)),
        trimmed(normalized(s)) == normalized(s),
{
    let blanked = punctuation_blanked(edition_stripped(fold_accents(lowercase_of(s))));
    lemma_blanked_text_is_plain(s);
    lemma_words_are_plain(blanked, Seq::empty());
    lemma_joined_words_have_no_outer_space(split_words(blanked));
    lemma_trim_without_outer_space(normalized(s));
}

} // verus!
