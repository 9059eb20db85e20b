//! Search queries derived from what the catalogue knows of a book: several
//! spellings of one title, so that providers with different search engines
//! each get a query they can answer.

use crate::candidate::optional_text;
use crate::normalizer::{normalize, normalized};
use crate::scorer::{book_word, contains_digit, has_digit, is_book_word, optional_str, text_is};
use crate::variation_laws::{lemma_first_variation_is_title, lemma_variations_are_distinct};
use crate::text::{
    chars_of, contains_text, is_ascii_digit, is_digit_char, join,
    join_words, lemma_strings_push, lemma_texts_push, matches_at, occurs_at, slice, split, split_on,
    split_whitespace, split_words, string_of, strings, texts, trim, trimmed,
};
use std::path::{Component, Path};
use vstd::prelude::*;

verus! {

/// What a well-known acronym stands for.
pub open spec fn acronym_expansion(s: Seq<char>) -> Option<Seq<char>> {
    if s == "got"@ {
        Some("game of thrones"@)
    } else if s == "asoiaf"@ {
        Some("a song of ice and fire"@)
    } else if s == "lotr"@ {
        Some("lord of the rings"@)
    } else if s == "hp"@ {
        Some("harry potter"@)
    } else if s == "twot"@ {
        Some("the wheel of time"@)
    } else if s == "wot"@ {
        Some("wheel of time"@)
    } else if s == "tbate"@ {
        Some("the beginning after the end"@)
    } else {
        None
    }
}

/// The text of an optional character vector.
pub open spec fn optional_chars(o: Option<Vec<char>>) -> Option<Seq<char>> {
    match o {
        Some(v) => Some(v@),
        None => None,
    }
}

/// Looks the trimmed text up in the acronym lexicon.
pub fn expand_sigla(s: &Vec<char>) -> (r: Option<Vec<char>>)
    ensures
        optional_chars(r) == acronym_expansion(trimmed(s@)),
{
    let t = trim(s);
    if text_is(&t, "got") {
        Some(chars_of("game of thrones"))
    } else if text_is(&t, "asoiaf") {
        Some(chars_of("a song of ice and fire"))
    } else if text_is(&t, "lotr") {
        Some(chars_of("lord of the rings"))
    } else if text_is(&t, "hp") {
        Some(chars_of("harry potter"))
    } else if text_is(&t, "twot") {
        Some(chars_of("the wheel of time"))
    } else if text_is(&t, "wot") {
        Some(chars_of("wheel of time"))
    } else if text_is(&t, "tbate") {
        Some(chars_of("the beginning after the end"))
    } else {
        None
    }
}

/// `list` with `s` at its end, unless `s` is in it already.
pub open spec fn with_unique(list: Seq<Seq<char>>, s: Seq<char>) -> Seq<Seq<char>> {
    if list.contains(s) {
        list
    } else {
        list.push(s)
    }
}

/// `list` with the trimmed `s` added, and behind it what `s` stands for if it
/// is an acronym; nothing is added twice, and an empty text not at all.
pub open spec fn with_variation(list: Seq<Seq<char>>, s: Seq<char>) -> Seq<Seq<char>> {
    let t = trimmed(s);
    if t.len() == 0 {
        list
    } else {
        match acronym_expansion(t) {
            Some(e) => with_unique(with_unique(list, t), e),
            None => with_unique(list, t),
        }
    }
}

/// Adds `s` at the end unless it is there already.
pub fn push_unique(list: &mut Vec<Vec<char>>, s: Vec<char>)
    ensures
        texts(final(list)@) == with_unique(texts(old(list)@), s@),
{
    if !contains_text(list, &s) {
        proof {
            lemma_texts_push(list@, s);
        }
        list.push(s);
    }
}

/// Adds a variation and, for an acronym, its expansion.
pub fn add_with_sigla_expansion(variations: &mut Vec<Vec<char>>, s: &Vec<char>)
    ensures
        texts(final(variations)@) == with_variation(texts(old(variations)@), s@),
{
    let t = trim(s);
    if t.len() == 0 {
        return ;
    }
    let expanded = expand_sigla(&t);
    proof {
        lemma_trim_is_stable(s@);
    }
    push_unique(variations, t);
    match expanded {
        Some(e) => {
            push_unique(variations, e);
        },
        None => {},
    }
}

/// Trimming a trimmed text changes nothing.
pub proof fn lemma_trim_is_stable(s: Seq<char>)
    ensures
        trimmed(trimmed(s)) == trimmed(s),
{
    crate::text::lemma_trimmed_has_no_outer_space(s);
    crate::text::lemma_trim_without_outer_space(trimmed(s));
}

/// `t` without the leading `article`, trimmed, if `t` begins with it.
pub open spec fn article_stripped(t: Seq<char>, article: Seq<char>) -> Option<Seq<char>> {
    if occurs_at(article, t, 0) {
        Some(trimmed(t.skip(article.len() as int)))
    } else {
        None
    }
}

/// The trimmed text without one leading article or determiner, English or
/// Portuguese.
pub open spec fn without_leading_article(s: Seq<char>) -> Seq<char> {
    let t = trimmed(s);
    if article_stripped(t, "a "@) is Some {
        article_stripped(t, "a "@)->0
    } else if article_stripped(t, "the "@) is Some {
        article_stripped(t, "the "@)->0
    } else if article_stripped(t, "o "@) is Some {
        article_stripped(t, "o "@)->0
    } else if article_stripped(t, "os "@) is Some {
        article_stripped(t, "os "@)->0
    } else if article_stripped(t, "as "@) is Some {
        article_stripped(t, "as "@)->0
    } else if article_stripped(t, "um "@) is Some {
        article_stripped(t, "um "@)->0
    } else if article_stripped(t, "uma "@) is Some {
        article_stripped(t, "uma "@)->0
    } else if article_stripped(t, "an "@) is Some {
        article_stripped(t, "an "@)->0
    } else {
        t
    }
}

/// Strips `article` from the front of `t` if it is there.
pub fn strip_article(t: &Vec<char>, article: &str) -> (r: Option<Vec<char>>)
    ensures
        optional_chars(r) == article_stripped(t@, article@),
{
    let a = chars_of(article);
    if matches_at(&a, t, 0) {
        let rest = slice(t, a.len(), t.len());
        proof {
            assert(rest@ =~= t@.skip(a.len() as int));
        }
        Some(trim(&rest))
    } else {
        None
    }
}

/// Removes one leading article or determiner.
pub fn strip_leading_article(s: &Vec<char>) -> (r: Vec<char>)
    ensures
        r@ == without_leading_article(s@),
{
    let t = trim(s);
    if let Some(r) = strip_article(&t, "a ") {
        return r;
    }
    if let Some(r) = strip_article(&t, "the ") {
        return r;
    }
    if let Some(r) = strip_article(&t, "o ") {
        return r;
    }
    if let Some(r) = strip_article(&t, "os ") {
        return r;
    }
    if let Some(r) = strip_article(&t, "as ") {
        return r;
    }
    if let Some(r) = strip_article(&t, "um ") {
        return r;
    }
    if let Some(r) = strip_article(&t, "uma ") {
        return r;
    }
    if let Some(r) = strip_article(&t, "an ") {
        return r;
    }
    t
}

/// What parts a title from its subtitle: a colon, a hyphen, an en dash or an
/// em dash.
pub open spec fn is_title_separator(c: char) -> bool {
    c == ':' || c == '-' || c == '–' || c == '—'
}

/// The first place at or after `from` at which a separator stands with
/// something other than whitespace before it.
pub open spec fn first_cut(s: Seq<char>, from: int) -> Option<int>
    decreases s.len() - from,
{
    if from < 0 || from >= s.len() {
        None
    } else if is_title_separator(s[from]) && trimmed(s.take(from)).len() > 0 {
        Some(from)
    } else {
        first_cut(s, from + 1)
    }
}

/// The part of a title before its subtitle: what stands before the first
/// colon, hyphen, en dash or em dash that has anything before it, trimmed;
/// the whole title if there is no such separator.
pub open spec fn main_title(s: Seq<char>) -> Seq<char> {
    match first_cut(s, 0) {
        Some(p) => trimmed(s.take(p)),
        None => s,
    }
}

/// The part of a title before its subtitle.
pub fn title_before_colon_or_dash(s: &Vec<char>) -> (r: Vec<char>)
    ensures
        r@ == main_title(s@),
{
    let mut p: usize = 0;
    while p < s.len()
        invariant
            p <= s.len(),
            first_cut(s@, 0) == first_cut(s@, p as int),
        decreases s.len() - p,
    {
        let c = s[p];
        if c == ':' || c == '-' || c == '–' || c == '—' {
            let head = slice(s, 0, p);
            proof {
                assert(head@ =~= s@.take(p as int));
            }
            let part = trim(&head);
            if part.len() > 0 {
                return part;
            }
        }
        p += 1;
    }
    let r = slice(s, 0, s.len());
    proof {
        assert(r@ =~= s@);
    }
    r
}

/// Articles, prepositions and conjunctions that say nothing about a title.
pub open spec fn is_stop_word(w: Seq<char>) -> bool {
    w == "a"@ || w == "o"@ || w == "e"@ || w == "de"@ || w == "da"@ || w == "do"@ || w == "das"@
        || w == "dos"@ || w == "um"@ || w == "uma"@ || w == "os"@ || w == "as"@ || w == "the"@
        || w == "an"@ || w == "of"@ || w == "and"@ || w == "or"@ || w == "in"@ || w == "on"@ || w
        == "to"@ || w == "for"@ || w == "no"@ || w == "na"@ || w == "em"@ || w == "com"@ || w
        == "por"@ || w == "para"@
}

/// Whether a word is a stop word.
pub fn stop_word(w: &Vec<char>) -> (r: bool)
    ensures
        r == is_stop_word(w@),
{
    text_is(w, "a") || text_is(w, "o") || text_is(w, "e") || text_is(w, "de") || text_is(w, "da")
        || text_is(w, "do") || text_is(w, "das") || text_is(w, "dos") || text_is(w, "um")
        || text_is(w, "uma") || text_is(w, "os") || text_is(w, "as") || text_is(w, "the")
        || text_is(w, "an") || text_is(w, "of") || text_is(w, "and") || text_is(w, "or")
        || text_is(w, "in") || text_is(w, "on") || text_is(w, "to") || text_is(w, "for")
        || text_is(w, "no") || text_is(w, "na") || text_is(w, "em") || text_is(w, "com")
        || text_is(w, "por") || text_is(w, "para")
}

/// The first `max` of the words that are no stop words, in their order.
pub open spec fn content_words(words: Seq<Seq<char>>, max: int) -> Seq<Seq<char>>
    decreases words.len(),
{
    if words.len() == 0 {
        Seq::empty()
    } else {
        let before = content_words(words.drop_last(), max);
        if is_stop_word(words.last()) || before.len() >= max {
            before
        } else {
            before.push(words.last())
        }
    }
}

/// A short keyword query: the first `max` content words of `s`, joined by
/// single spaces.
pub open spec fn keywords(s: Seq<char>, max: int) -> Seq<char> {
    join_words(content_words(split_words(s), max))
}

/// Reduces a text to its first `max_words` content words.
pub fn extract_keywords(s: &Vec<char>, max_words: usize) -> (r: Vec<char>)
    ensures
        r@ == keywords(s@, max_words as int),
{
    let words = split_whitespace(s);
    let mut kept: Vec<Vec<char>> = Vec::new();
    let mut i: usize = 0;
    proof {
        assert(texts(kept@) =~= content_words(texts(words@).take(0), max_words as int));
    }
    while i < words.len()
        invariant
            i <= words.len(),
            texts(kept@) == content_words(texts(words@).take(i as int), max_words as int),
        decreases words.len() - i,
    {
        proof {
            assert(texts(words@).take(i as int + 1).drop_last() =~= texts(words@).take(i as int));
            assert(texts(words@).take(i as int + 1).last() == words@[i as int]@);
            assert(texts(kept@).len() == kept.len());
        }
        if !stop_word(&words[i]) && kept.len() < max_words {
            let copy = slice(&words[i], 0, words[i].len());
            proof {
                assert(copy@ =~= words@[i as int]@);
                lemma_texts_push(kept@, copy);
            }
            kept.push(copy);
        }
        i += 1;
    }
    proof {
        assert(texts(words@).take(words.len() as int) =~= texts(words@));
    }
    let mut space: Vec<char> = Vec::new();
    space.push(' ');
    proof {
        assert(space@ =~= seq![' ']);
    }
    join(&kept, &space)
}

/// Canonicalises a text held as characters.
pub fn normalize_chars(s: &Vec<char>) -> (r: Vec<char>)
    ensures
        r@ == normalized(s@),
{
    let text = string_of(s);
    let norm = normalize(text.as_str());
    chars_of(norm.as_str())
}

/// A fresh copy of a text.
pub fn copy_text(s: &Vec<char>) -> (r: Vec<char>)
    ensures
        r@ == s@,
{
    let r = slice(s, 0, s.len());
    proof {
        assert(r@ =~= s@);
    }
    r
}

/// `a`, a space, and `b`.
pub open spec fn spaced(a: Seq<char>, b: Seq<char>) -> Seq<char> {
    a + seq![' '] + b
}

/// Writes `a`, a space, and `b`.
pub fn join_spaced(a: &Vec<char>, b: &Vec<char>) -> (r: Vec<char>)
    ensures
        r@ == spaced(a@, b@),
{
    let mut r = copy_text(a);
    r.push(' ');
    crate::text::append(&mut r, b);
    proof {
        assert(r@ =~= spaced(a@, b@));
    }
    r
}

/// Every character is an ASCII digit.
pub open spec fn is_numeric(s: Seq<char>) -> bool {
    forall|i: int| 0 <= i < s.len() ==> is_digit_char(#[trigger] s[i])
}

/// Whether every character is an ASCII digit.
pub fn all_digits(s: &Vec<char>) -> (r: bool)
    ensures
        r == is_numeric(s@),
{
    let mut i: usize = 0;
    while i < s.len()
        invariant
            i <= s.len(),
            forall|k: int| 0 <= k < i ==> is_digit_char(#[trigger] s@[k]),
        decreases s.len() - i,
    {
        if !is_ascii_digit(s[i]) {
            return false;
        }
        i += 1;
    }
    true
}

/// A normalised text worth sending out as a query: four characters or more,
/// and not a bare number.
pub open spec fn worth_searching(norm: Seq<char>) -> bool {
    norm.len() >= 4 && !is_numeric(norm)
}

/// The queries that the base name of a file gives, from its normal form: the
/// name, its main title and its keywords, each only if it says something new.
pub open spec fn stem_variations(norm: Seq<char>) -> Seq<Seq<char>> {
    if norm.len() == 0 {
        Seq::empty()
    } else {
        let named = seq![norm];
        let main = main_title(norm);
        let with_main = if main.len() > 0 && main != norm {
            named.push(main)
        } else {
            named
        };
        let kw = keywords(norm, 5);
        if kw.len() > 0 && kw != norm {
            with_main.push(kw)
        } else {
            with_main
        }
    }
}

/// The queries that a file path gives, from the base name of the file and
/// the name of its parent directory.
pub open spec fn path_variations(stem: Option<Seq<char>>, parent: Option<Seq<char>>) -> Seq<
    Seq<char>,
> {
    let from_stem = match stem {
        Some(s) => stem_variations(normalized(s)),
        None => Seq::empty(),
    };
    match parent {
        Some(p) => {
            let norm = normalized(p);
            let with_parent = if norm.len() > 0 && !from_stem.contains(norm) {
                from_stem.push(norm)
            } else {
                from_stem
            };
            match stem {
                Some(n) => {
                    let combined = spaced(norm, normalized(n));
                    if combined != norm && !with_parent.contains(combined) {
                        with_parent.push(combined)
                    } else {
                        with_parent
                    }
                },
                None => with_parent,
            }
        },
        None => from_stem,
    }
}

/// The queries that a file path gives, from its parts.
pub fn extract_path_variations(stem: &Option<Vec<char>>, parent_name: &Option<Vec<char>>) -> (vars:
    Vec<Vec<char>>)
    ensures
        texts(vars@) == path_variations(optional_chars(*stem), optional_chars(*parent_name)),
{
    let mut vars: Vec<Vec<char>> = Vec::new();
    proof {
        assert(texts(vars@) =~= Seq::<Seq<char>>::empty());
    }
    if let Some(s) = stem {
        let norm = normalize_chars(s);
        if norm.len() > 0 {
            let main = title_before_colon_or_dash(&norm);
            let kw = extract_keywords(&norm, 5);
            let add_main = main.len() > 0 && !crate::text::same_text(&main, &norm);
            let add_kw = kw.len() > 0 && !crate::text::same_text(&kw, &norm);
            proof {
                lemma_texts_push(vars@, norm);
                assert(texts(vars@.push(norm)) =~= seq![norm@]);
            }
            vars.push(norm);
            if add_main {
                proof {
                    lemma_texts_push(vars@, main);
                }
                vars.push(main);
            }
            if add_kw {
                proof {
                    lemma_texts_push(vars@, kw);
                }
                vars.push(kw);
            }
        }
    }
    if let Some(p) = parent_name {
        let norm = normalize_chars(p);
        if norm.len() > 0 && !contains_text(&vars, &norm) {
            let copy = copy_text(&norm);
            proof {
                lemma_texts_push(vars@, copy);
            }
            vars.push(copy);
        }
        if let Some(n) = stem {
            let stem_norm = normalize_chars(n);
            let combined = join_spaced(&norm, &stem_norm);
            if !crate::text::same_text(&combined, &norm) && !contains_text(&vars, &combined) {
                proof {
                    lemma_texts_push(vars@, combined);
                }
                vars.push(combined);
            }
        }
    }
    vars
}

/// `list` with each text that is not empty added as a variation, in order.
pub open spec fn with_all(list: Seq<Seq<char>>, vars: Seq<Seq<char>>) -> Seq<Seq<char>>
    decreases vars.len(),
{
    if vars.len() == 0 {
        list
    } else if vars.last().len() > 0 {
        with_variation(with_all(list, vars.drop_last()), vars.last())
    } else {
        with_all(list, vars.drop_last())
    }
}

/// Adds every text of `vars` that is not empty.
pub fn add_all(variations: &mut Vec<Vec<char>>, vars: &Vec<Vec<char>>)
    ensures
        texts(final(variations)@) == with_all(texts(old(variations)@), texts(vars@)),
{
    let mut i: usize = 0;
    while i < vars.len()
        invariant
            i <= vars.len(),
            texts(variations@) == with_all(texts(old(variations)@), texts(vars@).take(i as int)),
        decreases vars.len() - i,
    {
        proof {
            assert(texts(vars@).take(i as int + 1).drop_last() =~= texts(vars@).take(i as int));
            assert(texts(vars@).take(i as int + 1).last() == vars@[i as int]@);
        }
        if vars[i].len() > 0 {
            add_with_sigla_expansion(variations, &vars[i]);
        }
        i += 1;
    }
    proof {
        assert(texts(vars@).take(vars.len() as int) =~= texts(vars@));
    }
}

/// `list` after one delimited segment: the segment is trimmed; if it is at
/// least `min_len` long and its normal form is worth searching, that form is
/// added.
pub open spec fn with_segment(list: Seq<Seq<char>>, segment: Seq<char>, min_len: int) -> Seq<
    Seq<char>,
> {
    let t = trimmed(segment);
    if t.len() < min_len {
        list
    } else if worth_searching(normalized(t)) {
        with_variation(list, normalized(t))
    } else {
        list
    }
}

/// `list` after several delimited segments, in order.
pub open spec fn with_segments(list: Seq<Seq<char>>, segments: Seq<Seq<char>>, min_len: int) -> Seq<
    Seq<char>,
>
    decreases segments.len(),
{
    if segments.len() == 0 {
        list
    } else {
        with_segment(with_segments(list, segments.drop_last(), min_len), segments.last(), min_len)
    }
}

/// `list` after the segments of `name` between `" - "`, then those between
/// `" _ "`.
pub open spec fn with_delimited(list: Seq<Seq<char>>, name: Seq<char>, min_len: int) -> Seq<
    Seq<char>,
> {
    with_segments(
        with_segments(list, split_on(name, " - "@), min_len),
        split_on(name, " _ "@),
        min_len,
    )
}

/// Adds what the segments give.
pub fn add_segments(variations: &mut Vec<Vec<char>>, segments: &Vec<Vec<char>>, min_len: usize)
    ensures
        texts(final(variations)@) == with_segments(
            texts(old(variations)@),
            texts(segments@),
            min_len as int,
        ),
{
    let mut i: usize = 0;
    while i < segments.len()
        invariant
            i <= segments.len(),
            texts(variations@) == with_segments(
                texts(old(variations)@),
                texts(segments@).take(i as int),
                min_len as int,
            ),
        decreases segments.len() - i,
    {
        proof {
            assert(texts(segments@).take(i as int + 1).drop_last() =~= texts(segments@).take(
                i as int,
            ));
            assert(texts(segments@).take(i as int + 1).last() == segments@[i as int]@);
        }
        let seg = trim(&segments[i]);
        if seg.len() >= min_len {
            let norm = normalize_chars(&seg);
            if norm.len() >= 4 && !all_digits(&norm) {
                add_with_sigla_expansion(variations, &norm);
            }
        }
        i += 1;
    }
    proof {
        assert(texts(segments@).take(segments.len() as int) =~= texts(segments@));
    }
}

/// Adds what the `" - "` and `" _ "` segments of `name` give.
pub fn add_delimited(variations: &mut Vec<Vec<char>>, name: &Vec<char>, min_len: usize)
    ensures
        texts(final(variations)@) == with_delimited(
            texts(old(variations)@),
            name@,
            min_len as int,
        ),
{
    let dash = chars_of(" - ");
    let underscore = chars_of(" _ ");
    proof {
        reveal_strlit(" - ");
        reveal_strlit(" _ ");
    }
    let by_dash = split(name, &dash);
    add_segments(variations, &by_dash, min_len);
    let by_underscore = split(name, &underscore);
    add_segments(variations, &by_underscore, min_len);
}

/// `list` after one chapter name: the keywords of its main title, if they
/// are four characters or more, and what its delimited segments of three
/// characters or more give. A name whose normal form is shorter than three
/// characters gives nothing.
pub open spec fn with_chapter_name(list: Seq<Seq<char>>, name: Seq<char>) -> Seq<Seq<char>> {
    let norm = normalized(name);
    if norm.len() < 3 {
        list
    } else {
        let meaningful = keywords(main_title(norm), 5);
        let with_keywords = if meaningful.len() >= 4 {
            with_variation(list, meaningful)
        } else {
            list
        };
        with_delimited(with_keywords, name, 3)
    }
}

/// `list` after several chapter names, in order.
pub open spec fn with_chapter_names(list: Seq<Seq<char>>, names: Seq<Seq<char>>) -> Seq<Seq<char>>
    decreases names.len(),
{
    if names.len() == 0 {
        list
    } else {
        with_chapter_name(with_chapter_names(list, names.drop_last()), names.last())
    }
}

/// Adds what one chapter name gives.
pub fn extract_from_chapter_name(variations: &mut Vec<Vec<char>>, ch_name: &Vec<char>)
    ensures
        texts(final(variations)@) == with_chapter_name(texts(old(variations)@), ch_name@),
{
    let norm = normalize_chars(ch_name);
    if norm.len() < 3 {
        return ;
    }
    let part = title_before_colon_or_dash(&norm);
    let meaningful = extract_keywords(&part, 5);
    if meaningful.len() >= 4 {
        add_with_sigla_expansion(variations, &meaningful);
    }
    add_delimited(variations, ch_name, 3);
}

/// `list` after the base name of one path component: what its delimited
/// segments give, then its own normal form if that is worth searching.
pub open spec fn with_stem(list: Seq<Seq<char>>, stem: Seq<char>) -> Seq<Seq<char>> {
    let with_parts = with_delimited(list, stem, 1);
    if worth_searching(normalized(stem)) {
        with_variation(with_parts, normalized(stem))
    } else {
        with_parts
    }
}

/// `list` after the base names of several path components, in order.
pub open spec fn with_stems(list: Seq<Seq<char>>, stems: Seq<Seq<char>>) -> Seq<Seq<char>>
    decreases stems.len(),
{
    if stems.len() == 0 {
        list
    } else {
        with_stem(with_stems(list, stems.drop_last()), stems.last())
    }
}

/// Adds what the base name of one path component gives.
pub fn extract_from_stem(variations: &mut Vec<Vec<char>>, stem: &Vec<char>)
    ensures
        texts(final(variations)@) == with_stem(texts(old(variations)@), stem@),
{
    add_delimited(variations, stem, 1);
    let norm = normalize_chars(stem);
    if norm.len() >= 4 && !all_digits(&norm) {
        add_with_sigla_expansion(variations, &norm);
    }
}

/// `list` after the title, from its normal form: the title, the title without
/// a leading article, its main title and its keywords, each only if it is not
/// empty and differs from the title.
pub open spec fn with_title(list: Seq<Seq<char>>, norm: Seq<char>) -> Seq<Seq<char>> {
    if norm.len() == 0 {
        list
    } else {
        let l1 = with_variation(list, norm);
        let bare = without_leading_article(norm);
        let l2 = if bare.len() > 0 && bare != norm {
            with_variation(l1, bare)
        } else {
            l1
        };
        let main = main_title(norm);
        let l3 = if main.len() > 0 && main != norm {
            with_variation(l2, main)
        } else {
            l2
        };
        let kw = keywords(norm, 5);
        if kw.len() > 0 && kw != norm {
            with_variation(l3, kw)
        } else {
            l3
        }
    }
}

/// Adds what the normalised title gives.
pub fn add_title(variations: &mut Vec<Vec<char>>, norm: &Vec<char>)
    ensures
        texts(final(variations)@) == with_title(texts(old(variations)@), norm@),
{
    if norm.len() == 0 {
        return ;
    }
    add_with_sigla_expansion(variations, norm);
    let bare = strip_leading_article(norm);
    if bare.len() > 0 && !crate::text::same_text(&bare, norm) {
        add_with_sigla_expansion(variations, &bare);
    }
    let main = title_before_colon_or_dash(norm);
    if main.len() > 0 && !crate::text::same_text(&main, norm) {
        add_with_sigla_expansion(variations, &main);
    }
    let kw = extract_keywords(norm, 5);
    if kw.len() > 0 && !crate::text::same_text(&kw, norm) {
        add_with_sigla_expansion(variations, &kw);
    }
}

/// `list` with the title followed by the author, if there is a title and an
/// author.
pub open spec fn with_author(list: Seq<Seq<char>>, norm_title: Seq<char>, author: Option<Seq<char>>)
    -> Seq<Seq<char>> {
    match author {
        Some(a) => if norm_title.len() > 0 && normalized(a).len() > 0 {
            with_unique(list, spaced(norm_title, normalized(a)))
        } else {
            list
        },
        None => list,
    }
}

/// The first `n` texts, or all of them if there are fewer.
pub open spec fn leading(list: Seq<Seq<char>>, n: int) -> Seq<Seq<char>> {
    if list.len() <= n {
        list
    } else {
        list.take(n)
    }
}

/// How many chapter names are looked at.
pub const MAX_CHAPTER_NAMES: usize = 15;

/// How many chapter paths are looked at.
pub const MAX_CHAPTER_PATHS: usize = 20;

/// The search queries for a book, in order of priority and without
/// repetition: from the title, from the base name and the parent directory of
/// its file, from its first chapter names, from the base names of the
/// components of its first chapter paths, and last the title with the author.
pub open spec fn variations_of(
    title: Seq<char>,
    stem: Option<Seq<char>>,
    parent: Option<Seq<char>>,
    author: Option<Seq<char>>,
    chapter_names: Seq<Seq<char>>,
    chapter_stems: Seq<Seq<char>>,
) -> Seq<Seq<char>> {
    let norm = normalized(title);
    let from_title = with_title(Seq::empty(), norm);
    let from_path = with_all(from_title, path_variations(stem, parent));
    let from_names = with_chapter_names(from_path, leading(chapter_names, MAX_CHAPTER_NAMES as int));
    let from_stems = with_stems(from_names, chapter_stems);
    with_author(from_stems, norm, author)
}

/// The characters of an optional string slice.
pub fn optional_chars_of(o: Option<&str>) -> (r: Option<Vec<char>>)
    ensures
        optional_chars(r) == optional_str(o),
{
    match o {
        Some(s) => Some(chars_of(s)),
        None => None,
    }
}

/// The strings of a list of texts.
pub fn strings_of(list: &Vec<Vec<char>>) -> (out: Vec<String>)
    ensures
        strings(out@) == texts(list@),
{
    let mut out: Vec<String> = Vec::new();
    let mut i: usize = 0;
    while i < list.len()
        invariant
            i <= list.len(),
            out.len() == i,
            forall|k: int| 0 <= k < i ==> (#[trigger] out@[k])@ == list@[k]@,
        decreases list.len() - i,
    {
        out.push(string_of(&list[i]));
        i += 1;
    }
    proof {
        assert(strings(out@) =~= texts(list@));
    }
    out
}

/// Generates the search queries from the parts of the file path instead of
/// the path itself: the base name of the file, the name of its parent
/// directory, and the base names of the components of the chapter paths.
pub fn variations_from_parts(
    title: &str,
    file_stem: Option<&str>,
    parent_name: Option<&str>,
    author: Option<&str>,
    chapter_names: &Vec<String>,
    chapter_stems: &Vec<String>,
) -> (v: Vec<String>)
    ensures
        strings(v@) == variations_of(
            title@,
            optional_str(file_stem),
            optional_str(parent_name),
            optional_str(author),
            strings(chapter_names@),
            strings(chapter_stems@),
        ),
        strings(v@).no_duplicates(),
        normalized(title@).len() > 0 ==> v.len() > 0 && v@[0]@ == normalized(title@),
{
    proof {
        lemma_variations_are_distinct(
            title@,
            optional_str(file_stem),
            optional_str(parent_name),
            optional_str(author),
            strings(chapter_names@),
            strings(chapter_stems@),
        );
        if normalized(title@).len() > 0 {
            lemma_first_variation_is_title(
                title@,
                optional_str(file_stem),
                optional_str(parent_name),
                optional_str(author),
                strings(chapter_names@),
                strings(chapter_stems@),
            );
        }
    }
    let mut variations: Vec<Vec<char>> = Vec::new();
    proof {
        assert(texts(variations@) =~= Seq::<Seq<char>>::empty());
    }
    let norm_text = normalize(title);
    let norm = chars_of(norm_text.as_str());
    add_title(&mut variations, &norm);
    let stem = optional_chars_of(file_stem);
    let parent = optional_chars_of(parent_name);
    let path_vars = extract_path_variations(&stem, &parent);
    add_all(&mut variations, &path_vars);
    let ghost from_path = texts(variations@);
    let ghost names = strings(chapter_names@);
    let limit: usize = if chapter_names.len() <= MAX_CHAPTER_NAMES {
        chapter_names.len()
    } else {
        MAX_CHAPTER_NAMES
    };
    let mut i: usize = 0;
    while i < limit
        invariant
            i <= limit <= chapter_names.len(),
            names == strings(chapter_names@),
            texts(variations@) == with_chapter_names(from_path, names.take(i as int)),
        decreases limit - i,
    {
        proof {
            assert(names.take(i as int + 1).drop_last() =~= names.take(i as int));
            assert(names.take(i as int + 1).last() == chapter_names@[i as int]@);
        }
        let name = chars_of(chapter_names[i].as_str());
        extract_from_chapter_name(&mut variations, &name);
        i += 1;
    }
    proof {
        assert(names.take(limit as int) =~= leading(names, MAX_CHAPTER_NAMES as int));
    }
    let ghost from_names = texts(variations@);
    let ghost stems = strings(chapter_stems@);
    let mut j: usize = 0;
    while j < chapter_stems.len()
        invariant
            j <= chapter_stems.len(),
            stems == strings(chapter_stems@),
            texts(variations@) == with_stems(from_names, stems.take(j as int)),
        decreases chapter_stems.len() - j,
    {
        proof {
            assert(stems.take(j as int + 1).drop_last() =~= stems.take(j as int));
            assert(stems.take(j as int + 1).last() == chapter_stems@[j as int]@);
        }
        let one = chars_of(chapter_stems[j].as_str());
        extract_from_stem(&mut variations, &one);
        j += 1;
    }
    proof {
        assert(stems.take(stems.len() as int) =~= stems);
    }
    if norm.len() > 0 {
        if let Some(a) = author {
            let a_norm_text = normalize(a);
            let a_norm = chars_of(a_norm_text.as_str());
            if a_norm.len() > 0 {
                push_unique(&mut variations, join_spaced(&norm, &a_norm));
            }
        }
    }
    let v = strings_of(&variations);
    proof {
        assert(strings(v@).len() == v.len());
        if v.len() > 0 {
            assert(strings(v@)[0] == v@[0]@);
        }
    }
    v
}

/// The base name of the file that a path names, as `Path::file_stem` reads
/// it: the last component without its extension.
pub uninterp spec fn path_stem_text(path: Seq<char>) -> Option<Seq<char>>;

/// A path without its last component, as `Path::parent` reads it.
pub uninterp spec fn path_parent_text(path: Seq<char>) -> Option<Seq<char>>;

/// The last component of a path, as `Path::file_name` reads it.
pub uninterp spec fn path_name_text(path: Seq<char>) -> Option<Seq<char>>;

/// The components of a path, as `Path::components` reads them: the name of
/// each normal component, and `None` for a root, a prefix, `.` or `..`.
pub uninterp spec fn path_component_texts(path: Seq<char>) -> Seq<Option<Seq<char>>>;

/// The texts of a list of optional strings.
pub open spec fn optional_texts(items: Seq<Option<String>>) -> Seq<Option<Seq<char>>> {
    Seq::new(items.len(), |i: int| optional_text(items[i]))
}

/// Calls `Path::file_stem` on `path`. Trusted: the result depends on the text
/// of the path alone; paths are read by their text, in the path syntax of the
/// platform that the library is built for.
#[verifier::external_body]
pub(crate) fn path_file_stem(path: &str) -> (stem: Option<String>)
    ensures
        optional_text(stem) == path_stem_text(path@),
{
    Path::new(path).file_stem().and_then(|s| s.to_str()).map(String::from)
}

/// Calls `Path::parent` on `path`. Trusted: the result depends on the text of
/// the path alone.
#[verifier::external_body]
pub(crate) fn path_parent(path: &str) -> (parent: Option<String>)
    ensures
        optional_text(parent) == path_parent_text(path@),
{
    Path::new(path).parent().and_then(|p| p.to_str()).map(String::from)
}

/// Calls `Path::file_name` on `path`. Trusted: the result depends on the text
/// of the path alone.
#[verifier::external_body]
pub(crate) fn path_file_name(path: &str) -> (name: Option<String>)
    ensures
        optional_text(name) == path_name_text(path@),
{
    Path::new(path).file_name().and_then(|s| s.to_str()).map(String::from)
}

/// Calls `Path::components` on `path` and hands out the name of each normal
/// component; a root, a prefix, `.` or `..` gives `None`. Trusted: the result
/// depends on the text of the path alone.
#[verifier::external_body]
pub(crate) fn path_components(path: &str) -> (names: Vec<Option<String>>)
    ensures
        optional_texts(names@) == path_component_texts(path@),
{
    Path::new(path).components().map(
        |c|
            match c {
                Component::Normal(s) => s.to_str().map(String::from),
                _ => None,
            },
    ).collect()
}

/// Those of the items that are there, in their order.
pub open spec fn present(items: Seq<Option<Seq<char>>>) -> Seq<Seq<char>>
    decreases items.len(),
{
    if items.len() == 0 {
        Seq::empty()
    } else {
        match items.last() {
            Some(name) => present(items.drop_last()).push(name),
            None => present(items.drop_last()),
        }
    }
}

/// The names of the normal components of a path, in their order.
pub open spec fn component_names(path: Seq<char>) -> Seq<Seq<char>> {
    present(path_component_texts(path))
}

/// The names of the normal components of an optional path; no path has no
/// components.
pub open spec fn components_of(path: Option<Seq<char>>) -> Seq<Seq<char>> {
    match path {
        Some(p) => component_names(p),
        None => Seq::empty(),
    }
}

/// The base name of a component: its name without the extension, or the
/// whole name where it has no base name.
pub open spec fn base_name(name: Seq<char>) -> Seq<char> {
    match path_stem_text(name) {
        Some(stem) => stem,
        None => name,
    }
}

/// The base name of each of the names.
pub open spec fn base_names(names: Seq<Seq<char>>) -> Seq<Seq<char>> {
    Seq::new(names.len(), |i: int| base_name(names[i]))
}

/// The base names of the normal components of each of the paths, path by
/// path.
pub open spec fn stems_of_paths(paths: Seq<Seq<char>>) -> Seq<Seq<char>>
    decreases paths.len(),
{
    if paths.len() == 0 {
        Seq::empty()
    } else {
        stems_of_paths(paths.drop_last()) + base_names(component_names(paths.last()))
    }
}

/// The base names that the chapter paths give: those of the normal
/// components of the first `MAX_CHAPTER_PATHS` paths.
pub open spec fn chapter_stems(chapter_paths: Seq<Seq<char>>) -> Seq<Seq<char>> {
    stems_of_paths(leading(chapter_paths, MAX_CHAPTER_PATHS as int))
}

/// The base name of the file that an optional path names.
pub open spec fn file_stem_of(path: Option<Seq<char>>) -> Option<Seq<char>> {
    match path {
        Some(p) => path_stem_text(p),
        None => None,
    }
}

/// The name of the directory in which the file of an optional path lies: the
/// last component of the path without its last component.
pub open spec fn parent_name_of(path: Option<Seq<char>>) -> Option<Seq<char>> {
    match path {
        Some(p) => match path_parent_text(p) {
            Some(parent) => path_name_text(parent),
            None => None,
        },
        None => None,
    }
}

/// The names of the normal components of a path.
pub fn named_components(path: &str) -> (names: Vec<String>)
    ensures
        strings(names@) == component_names(path@),
{
    let components = path_components(path);
    let ghost all = components@;
    let mut names: Vec<String> = Vec::new();
    proof {
        assert(strings(names@) =~= present(optional_texts(all).take(0)));
    }
    for component in it: components
        invariant
            it.seq() == all,
            strings(names@) == present(optional_texts(all).take(it.index())),
    {
        proof {
            let seen = optional_texts(all).take(it.index() + 1);
            assert(seen.drop_last() =~= optional_texts(all).take(it.index()));
            assert(seen.last() == optional_text(component));
        }
        if let Some(name) = component {
            proof {
                lemma_strings_push(names@, name);
            }
            names.push(name);
        }
    }
    proof {
        assert(optional_texts(all).take(all.len() as int) =~= optional_texts(all));
    }
    names
}

/// The base names of the normal components of a path.
pub fn component_base_names(path: &str) -> (stems: Vec<String>)
    ensures
        strings(stems@) == base_names(component_names(path@)),
{
    let names = named_components(path);
    let ghost all = strings(names@);
    let mut stems: Vec<String> = Vec::new();
    for name in it: names
        invariant
            all == strings(it.seq()),
            stems.len() == it.index(),
            forall|k: int| 0 <= k < it.index() ==> (#[trigger] stems@[k])@ == base_name(all[k]),
    {
        proof {
            assert(all[it.index()] == name@);
        }
        match path_file_stem(name.as_str()) {
            Some(stem) => stems.push(stem),
            None => stems.push(name),
        }
    }
    proof {
        assert(strings(stems@) =~= base_names(all));
    }
    stems
}

/// Moves the strings of `more` to the end of `out`.
pub fn extend_strings(out: &mut Vec<String>, more: Vec<String>)
    ensures
        strings(final(out)@) == strings(old(out)@) + strings(more@),
{
    let ghost before = strings(out@);
    let ghost all = strings(more@);
    proof {
        assert(before + all.take(0) =~= before);
    }
    for s in it: more
        invariant
            all == strings(it.seq()),
            strings(out@) == before + all.take(it.index()),
    {
        proof {
            lemma_strings_push(out@, s);
            assert(all[it.index()] == s@);
            assert(before + all.take(it.index() + 1) =~= (before + all.take(it.index())).push(
                s@,
            ));
        }
        out.push(s);
    }
    proof {
        assert(all.take(all.len() as int) =~= all);
    }
}

/// The texts of an optional list of strings; no list is an empty list.
pub open spec fn optional_strings(o: Option<&[String]>) -> Seq<Seq<char>> {
    match o {
        Some(list) => strings(list@),
        None => Seq::empty(),
    }
}

/// The base name of the file at `path` and the name of its parent directory.
pub fn path_parts(path: Option<&str>) -> (parts: (Option<String>, Option<String>))
    ensures
        optional_text(parts.0) == file_stem_of(optional_str(path)),
        optional_text(parts.1) == parent_name_of(optional_str(path)),
{
    match path {
        Some(p) => {
            let stem = path_file_stem(p);
            let parent_name = match path_parent(p) {
                Some(parent) => path_file_name(parent.as_str()),
                None => None,
            };
            (stem, parent_name)
        },
        None => (None, None),
    }
}

/// The base names of the normal components of the first `MAX_CHAPTER_PATHS`
/// paths, in order.
pub fn chapter_path_stems(chapter_paths: Option<&[String]>) -> (stems: Vec<String>)
    ensures
        strings(stems@) == chapter_stems(optional_strings(chapter_paths)),
{
    let mut stems: Vec<String> = Vec::new();
    proof {
        assert(strings(stems@) =~= Seq::<Seq<char>>::empty());
    }
    if let Some(paths) = chapter_paths {
        let ghost all = strings(paths@);
        let limit: usize = if paths.len() <= MAX_CHAPTER_PATHS {
            paths.len()
        } else {
            MAX_CHAPTER_PATHS
        };
        let mut i: usize = 0;
        proof {
            assert(all.take(0) =~= Seq::<Seq<char>>::empty());
        }
        while i < limit
            invariant
                i <= limit <= paths.len(),
                all == strings(paths@),
                strings(stems@) == stems_of_paths(all.take(i as int)),
            decreases limit - i,
        {
            proof {
                assert(all.take(i as int + 1).drop_last() =~= all.take(i as int));
                assert(all.take(i as int + 1).last() == paths@[i as int]@);
            }
            let more = component_base_names(paths[i].as_str());
            extend_strings(&mut stems, more);
            i += 1;
        }
        proof {
            assert(all.take(limit as int) =~= leading(all, MAX_CHAPTER_PATHS as int));
        }
    }
    stems
}

/// A copy of an optional list of strings; no list gives an empty list.
pub fn names_of(chapter_names: Option<&[String]>) -> (names: Vec<String>)
    ensures
        strings(names@) == optional_strings(chapter_names),
{
    let mut names: Vec<String> = Vec::new();
    if let Some(list) = chapter_names {
        let mut i: usize = 0;
        while i < list.len()
            invariant
                i <= list.len(),
                names.len() == i,
                forall|k: int| 0 <= k < i ==> (#[trigger] names@[k])@ == list@[k]@,
            decreases list.len() - i,
        {
            names.push(list[i].clone());
            i += 1;
        }
        proof {
            assert(strings(names@) =~= strings(list@));
        }
    } else {
        proof {
            assert(strings(names@) =~= Seq::<Seq<char>>::empty());
        }
    }
    names
}

/// Generates the search queries for a book, in order of priority and without
/// repetition: `variations_of` applied to the title, the base name of the
/// file and the name of its parent directory, the author, the chapter names,
/// and the base names of the components of the chapter paths. No query at all
/// means that the book cannot be searched for.
pub fn generate_variations(
    title: &str,
    path: Option<&str>,
    author: Option<&str>,
    chapter_names: Option<&[String]>,
    chapter_paths: Option<&[String]>,
) -> (v: Vec<String>)
    ensures
        strings(v@) == variations_of(
            title@,
            file_stem_of(optional_str(path)),
            parent_name_of(optional_str(path)),
            optional_str(author),
            optional_strings(chapter_names),
            chapter_stems(optional_strings(chapter_paths)),
        ),
        strings(v@).no_duplicates(),
        normalized(title@).len() > 0 ==> v.len() > 0 && v@[0]@ == normalized(title@),
{
    let (stem, parent_name) = path_parts(path);
    let names = names_of(chapter_names);
    let stems = chapter_path_stems(chapter_paths);
    let stem_ref: Option<&str> = match &stem {
        Some(s) => Some(s.as_str()),
        None => None,
    };
    let parent_ref: Option<&str> = match &parent_name {
        Some(s) => Some(s.as_str()),
        None => None,
    };
    proof {
        assert(optional_str(stem_ref) == optional_text(stem));
        assert(optional_str(parent_ref) == optional_text(parent_name));
    }
    variations_from_parts(title, stem_ref, parent_ref, author, &names, &stems)
}

/// Words that titles of Western novels are made of, as they are known when
/// a catalogue entry is classified.
pub open spec fn is_novel_word(w: Seq<char>) -> bool {
    is_book_word(w) || w == "beginning"@ || w == "after"@ || w == "end"@
}

/// Whether any of the words is a novel word.
pub open spec fn has_novel_word(words: Seq<Seq<char>>) -> bool {
    exists|i: int| 0 <= i < words.len() && is_novel_word(#[trigger] words[i])
}

/// Whether a normalised text reads like the title of a Western novel: two
/// words or more, one of them a novel word, and no digit.
pub open spec fn reads_like_western_title(norm: Seq<char>) -> bool {
    split_words(norm).len() >= 2 && has_novel_word(split_words(norm)) && !has_digit(norm)
}

/// Whether a text, once normalised, reads like the title of a Western novel
/// or is an acronym of one.
pub open spec fn suggests_western_book(s: Seq<char>) -> bool {
    let norm = normalized(s);
    norm.len() > 0 && (reads_like_western_title(norm) || (acronym_expansion(trimmed(norm)) matches Some(
        e,
    ) && reads_like_western_title(e)))
}

/// Whether the title or any of the path components suggests a Western book.
pub open spec fn likely_western(title: Seq<char>, components: Seq<Seq<char>>) -> bool {
    suggests_western_book(title) || exists|i: int|
        0 <= i < components.len() && suggests_western_book(#[trigger] components[i])
}

/// Whether a word is a novel word.
pub fn novel_word(w: &Vec<char>) -> (r: bool)
    ensures
        r == is_novel_word(w@),
{
    book_word(w) || text_is(w, "beginning") || text_is(w, "after") || text_is(w, "end")
}

/// Whether a normalised text reads like the title of a Western novel.
pub fn looks_western_book(norm: &Vec<char>) -> (r: bool)
    ensures
        r == reads_like_western_title(norm@),
{
    let words = split_whitespace(norm);
    if words.len() < 2 {
        return false;
    }
    let mut i: usize = 0;
    while i < words.len()
        invariant
            i <= words.len(),
            words.len() >= 2,
            texts(words@) == split_words(norm@),
            forall|k: int| 0 <= k < i ==> !is_novel_word(#[trigger] texts(words@)[k]),
        decreases words.len() - i,
    {
        if novel_word(&words[i]) {
            proof {
                assert(is_novel_word(texts(words@)[i as int]));
            }
            return !contains_digit(norm);
        }
        i += 1;
    }
    false
}

/// Whether one text suggests a Western book.
pub fn suggests_western(s: &str) -> (r: bool)
    ensures
        r == suggests_western_book(s@),
{
    let norm_text = normalize(s);
    let norm = chars_of(norm_text.as_str());
    if norm.len() == 0 {
        return false;
    }
    if looks_western_book(&norm) {
        return true;
    }
    match expand_sigla(&norm) {
        Some(expanded) => looks_western_book(&expanded),
        None => false,
    }
}

/// Whether the title or any of the named path components suggests a Western
/// book.
pub fn is_likely_western_from(title: &str, components: &Vec<String>) -> (r: bool)
    ensures
        r == likely_western(title@, strings(components@)),
{
    if suggests_western(title) {
        return true;
    }
    let mut i: usize = 0;
    while i < components.len()
        invariant
            i <= components.len(),
            !suggests_western_book(title@),
            forall|k: int| 0 <= k < i ==> !suggests_western_book(#[trigger] strings(components@)[k]),
        decreases components.len() - i,
    {
        if suggests_western(components[i].as_str()) {
            proof {
                assert(suggests_western_book(strings(components@)[i as int]));
            }
            return true;
        }
        i += 1;
    }
    false
}

/// The names of the normal components of a path; no path has no components.
pub fn normal_components(path: Option<&str>) -> (names: Vec<String>)
    ensures
        strings(names@) == components_of(optional_str(path)),
{
    match path {
        Some(p) => named_components(p),
        None => {
            let names: Vec<String> = Vec::new();
            proof {
                assert(strings(names@) =~= Seq::<Seq<char>>::empty());
            }
            names
        },
    }
}

/// Whether the entry looks like a Western book or novel, judged by its title
/// and by the names of the components of its path.
pub fn is_likely_western_book(title: &str, path: Option<&str>) -> (r: bool)
    ensures
        r == likely_western(title@, components_of(optional_str(path))),
        suggests_western_book(title@) ==> r,
        path is None ==> r == suggests_western_book(title@),
{
    let names = normal_components(path);
    is_likely_western_from(title, &names)
}

} // verus!
