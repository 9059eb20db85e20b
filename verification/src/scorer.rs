//! Confidence of a candidate, from 0 to 100 points in thousandths of a point.
//!
//! Weights: title 40 %, author 25 %, year 15 %, language 10 %, cover 5 %,
//! description 5 %. Year and language are not compared yet and count as
//! neutral. Manga gains when the search text is Japanese; anime loses when the
//! title reads like a Western book.

use crate::candidate::{optional_text, CandidateView, MediaType, MetadataCandidate};
use crate::decision::MAX_SCORE;
use crate::normalizer::{contains_japanese, has_cjk, normalize, normalized};
use crate::text::{
    chars_of, contains_sub, is_ascii_digit, is_digit_char, is_substring, same_text,
    split_whitespace, split_words, strings, texts,
};
use crate::wordset::{
    count_shared, count_union, distinct, distinct_count, shared_count, union_count,
};
use vstd::prelude::*;

verus! {

/// Weight of the title, in per cent.
pub const TITLE_WEIGHT: u32 = 40;

/// Weight of the author, in per cent.
pub const AUTHOR_WEIGHT: u32 = 25;

/// Weight of the year, in per cent.
pub const YEAR_WEIGHT: u32 = 15;

/// Weight of the language, in per cent.
pub const LANGUAGE_WEIGHT: u32 = 10;

/// Weight of the presence of a cover, in per cent.
pub const COVER_WEIGHT: u32 = 5;

/// Weight of the presence of a description, in per cent.
pub const DESCRIPTION_WEIGHT: u32 = 5;

/// The score of a part that says neither yes nor no, 50 points.
pub const NEUTRAL_SCORE: u32 = 50_000;

/// The least title score of an alternative that contains the search title or
/// is contained in it, 90 points.
pub const CONTAINMENT_SCORE: u32 = 90_000;

/// What an author earns when every search word is found, 80 points.
pub const AUTHOR_OVERLAP_SCORE: u32 = 80_000;

/// What manga gains when the search text is Japanese, 15 points.
pub const MANGA_BOOST: i32 = 15_000;

/// What anime loses when the title reads like a Western book, 40 points.
pub const ANIME_PENALTY: i32 = 40_000;

/// What is known of the search before any candidate is scored.
#[derive(Debug)]
pub struct ScoreContext {
    pub search_title: String,
    pub search_path: Option<String>,
    /// Whether the title or the path holds Japanese script.
    pub is_japanese: bool,
}

/// Whether the title, or the path if there is one, holds Japanese script.
pub open spec fn japanese_context(title: Seq<char>, path: Option<Seq<char>>) -> bool {
    has_cjk(title) || (path matches Some(p) && has_cjk(p))
}

impl ScoreContext {
    /// Reads the script of the search from the title and the path.
    pub fn new(search_title: &str, path: Option<&str>) -> (ctx: ScoreContext)
        ensures
            ctx.search_title@ == search_title@,
            optional_text(ctx.search_path) == (match path {
                Some(p) => Some(p@),
                None => None,
            }),
            ctx.is_japanese == japanese_context(
                search_title@,
                match path {
                    Some(p) => Some(p@),
                    None => None,
                },
            ),
    {
        let title_is_japanese = contains_japanese(search_title);
        match path {
            Some(p) => {
                let path_is_japanese = contains_japanese(p);
                ScoreContext {
                    search_title: search_title.to_owned(),
                    search_path: Some(p.to_owned()),
                    is_japanese: title_is_japanese || path_is_japanese,
                }
            },
            None => ScoreContext {
                search_title: search_title.to_owned(),
                search_path: None,
                is_japanese: title_is_japanese,
            },
        }
    }
}

/// Words that titles of Western novels are made of.
pub open spec fn is_book_word(w: Seq<char>) -> bool {
    w == "of"@ || w == "and"@ || w == "the"@ || w == "song"@ || w == "fire"@ || w == "ice"@ || w
        == "king"@ || w == "queen"@ || w == "lord"@ || w == "rings"@ || w == "chronicles"@ || w
        == "saga"@ || w == "tale"@ || w == "tales"@ || w == "storm"@ || w == "sword"@ || w
        == "dragon"@ || w == "dungeon"@
}

/// Whether any of the words is a book word.
pub open spec fn has_book_word(words: Seq<Seq<char>>) -> bool {
    exists|i: int| 0 <= i < words.len() && is_book_word(#[trigger] words[i])
}

/// Whether any character of the text is an ASCII digit.
pub open spec fn has_digit(s: Seq<char>) -> bool {
    exists|i: int| 0 <= i < s.len() && is_digit_char(#[trigger] s[i])
}

/// Whether a normalised title reads like that of a Western book: two words or
/// more, one of them a book word, and no digit.
pub open spec fn reads_like_western_book(norm: Seq<char>) -> bool {
    split_words(norm).len() >= 2 && has_book_word(split_words(norm)) && !has_digit(norm)
}

/// Whether `w` is the text of `literal`.
pub fn text_is(w: &Vec<char>, literal: &str) -> (r: bool)
    ensures
        r == (w@ == literal@),
{
    let l = chars_of(literal);
    same_text(w, &l)
}

/// Whether a word is a book word.
pub fn book_word(w: &Vec<char>) -> (r: bool)
    ensures
        r == is_book_word(w@),
{
    text_is(w, "of") || text_is(w, "and") || text_is(w, "the") || text_is(w, "song") || text_is(
        w,
        "fire",
    ) || text_is(w, "ice") || text_is(w, "king") || text_is(w, "queen") || text_is(w, "lord")
        || text_is(w, "rings") || text_is(w, "chronicles") || text_is(w, "saga") || text_is(
        w,
        "tale",
    ) || text_is(w, "tales") || text_is(w, "storm") || text_is(w, "sword") || text_is(
        w,
        "dragon",
    ) || text_is(w, "dungeon")
}

/// Whether any character of `s` is an ASCII digit.
pub fn contains_digit(s: &Vec<char>) -> (r: bool)
    ensures
        r == has_digit(s@),
{
    let mut i: usize = 0;
    while i < s.len()
        invariant
            i <= s.len(),
            forall|k: int| 0 <= k < i ==> !is_digit_char(#[trigger] s@[k]),
        decreases s.len() - i,
    {
        if is_ascii_digit(s[i]) {
            return true;
        }
        i += 1;
    }
    false
}

/// Whether a normalised title reads like that of a Western book.
pub fn looks_western_book(norm: &Vec<char>) -> (r: bool)
    ensures
        r == reads_like_western_book(norm@),
{
    let words = split_whitespace(norm);
    if words.len() < 2 {
        return false;
    }
    let mut found = false;
    let mut i: usize = 0;
    while i < words.len() && !found
        invariant
            i <= words.len(),
            texts(words@) == split_words(norm@),
            found ==> has_book_word(texts(words@)),
            !found ==> forall|k: int| 0 <= k < i ==> !is_book_word(#[trigger] texts(words@)[k]),
        decreases words.len() - i + (if found { 0int } else { 1int }),
    {
        if book_word(&words[i]) {
            proof {
                assert(is_book_word(texts(words@)[i as int]));
            }
            found = true;
        } else {
            i += 1;
        }
    }
    found && !contains_digit(norm)
}

/// Share of the words that two word lists have in common, times 100 points.
pub open spec fn jaccard_score(a: Seq<Seq<char>>, b: Seq<Seq<char>>) -> int {
    if union_count(a, b) > 0 {
        (MAX_SCORE * shared_count(a, b)) / (union_count(a, b) as int)
    } else {
        0
    }
}

/// What one normalised alternative title earns against the normalised search
/// title. An alternative without words earns nothing.
pub open spec fn alternative_score(norm_search: Seq<char>, norm_alt: Seq<char>) -> int {
    if split_words(norm_alt).len() == 0 {
        0
    } else {
        let j = jaccard_score(split_words(norm_search), split_words(norm_alt));
        if (is_substring(norm_search, norm_alt) || is_substring(norm_alt, norm_search)) && j
            < CONTAINMENT_SCORE {
            CONTAINMENT_SCORE as int
        } else {
            j
        }
    }
}

/// The best that any of the titles earns.
pub open spec fn best_alternative(norm_search: Seq<char>, titles: Seq<Seq<char>>) -> int
    decreases titles.len(),
{
    if titles.len() == 0 {
        0
    } else {
        let before = best_alternative(norm_search, titles.drop_last());
        let here = alternative_score(norm_search, normalized(titles.last()));
        if here > before {
            here
        } else {
            before
        }
    }
}

/// Title part of the score: the best of the alternatives and the primary
/// title; nothing when the search title is empty.
pub open spec fn title_score(c: CandidateView, norm_search: Seq<char>) -> int {
    if norm_search.len() == 0 {
        0
    } else {
        best_alternative(norm_search, c.title_alternatives.push(c.title))
    }
}

/// Author part of the score.
pub open spec fn author_score_of(
    candidate_author: Option<Seq<char>>,
    search_author: Option<Seq<char>>,
) -> int {
    match (candidate_author, search_author) {
        (Some(ca), Some(sa)) => {
            let cn = normalized(ca);
            let sn = normalized(sa);
            if is_substring(sn, cn) || is_substring(cn, sn) {
                MAX_SCORE as int
            } else {
                let shared = shared_count(split_words(cn), split_words(sn));
                if shared > 0 {
                    (shared * AUTHOR_OVERLAP_SCORE) / (distinct_count(split_words(sn)) as int)
                } else {
                    0
                }
            }
        },
        (Some(_), None) => NEUTRAL_SCORE as int,
        (None, Some(_)) => 0,
        (None, None) => NEUTRAL_SCORE as int,
    }
}

/// 100 points for a field that is there, none for one that is not.
pub open spec fn presence_score(present: bool) -> int {
    if present {
        MAX_SCORE as int
    } else {
        0
    }
}

/// The weighted sum of the parts, at most 100 points.
pub open spec fn weighted_base(title: int, author: int, cover: int, description: int) -> int {
    let sum = (TITLE_WEIGHT * title + AUTHOR_WEIGHT * author + YEAR_WEIGHT * NEUTRAL_SCORE
        + LANGUAGE_WEIGHT * NEUTRAL_SCORE + COVER_WEIGHT * cover + DESCRIPTION_WEIGHT
        * description) / 100;
    if sum > MAX_SCORE {
        MAX_SCORE as int
    } else {
        sum
    }
}

/// What the kind of work adds to the weighted sum.
pub open spec fn media_adjustment(media_type: MediaType, is_japanese: bool, norm_search: Seq<char>)
    -> int {
    match media_type {
        MediaType::Book => 0,
        MediaType::Manga => if is_japanese {
            MANGA_BOOST as int
        } else {
            0
        },
        MediaType::Anime => if !is_japanese && reads_like_western_book(norm_search) {
            -(ANIME_PENALTY as int)
        } else {
            0
        },
    }
}

/// `x` brought into the range from 0 to 100 points.
pub open spec fn clamped(x: int) -> int {
    if x < 0 {
        0
    } else if x > MAX_SCORE {
        MAX_SCORE as int
    } else {
        x
    }
}

/// The score of a candidate against a search title and author.
pub open spec fn candidate_score(
    c: CandidateView,
    search_title: Seq<char>,
    search_author: Option<Seq<char>>,
    is_japanese: bool,
) -> int {
    let norm_search = normalized(search_title);
    combined(
        title_score(c, norm_search),
        author_score_of(c.author, search_author),
        presence_score(c.cover_url is Some),
        presence_score(c.description is Some),
        media_adjustment(c.media_type, is_japanese, norm_search),
    )
}

/// Two word lists share no more words than they hold together, and their
/// share lies between 0 and 100 points.
pub proof fn lemma_jaccard_bounds(a: Seq<Seq<char>>, b: Seq<Seq<char>>)
    ensures
        0 <= jaccard_score(a, b) <= MAX_SCORE,
        shared_count(a, b) <= union_count(a, b),
{
    broadcast use vstd::seq_lib::seq_to_set_is_finite;

    let sa = a.to_set();
    let sb = b.to_set();
    vstd::set_lib::lemma_len_subset(sa.intersect(sb), sa.union(sb));
    let s = shared_count(a, b) as int;
    let u = union_count(a, b) as int;
    if u > 0 {
        assert(0 <= (100_000 * s) / u <= 100_000) by (nonlinear_arith)
            requires
                0 <= s <= u,
                u > 0,
        ;
    }
}

/// The author part lies between 0 and 100 points.
pub proof fn lemma_author_score_bounds(
    candidate_author: Option<Seq<char>>,
    search_author: Option<Seq<char>>,
)
    ensures
        0 <= author_score_of(candidate_author, search_author) <= MAX_SCORE,
{
    broadcast use vstd::seq_lib::seq_to_set_is_finite;

    if candidate_author is Some && search_author is Some {
        let cw = split_words(normalized(candidate_author->0));
        let sw = split_words(normalized(search_author->0));
        vstd::set_lib::lemma_len_subset(cw.to_set().intersect(sw.to_set()), sw.to_set());
        let s = shared_count(cw, sw) as int;
        let d = distinct_count(sw) as int;
        if s > 0 {
            assert(0 <= (s * 80_000) / d <= 80_000) by (nonlinear_arith)
                requires
                    0 < s <= d,
            ;
        }
    }
}

/// Every score lies between 0 and 100 points.
pub proof fn lemma_score_bounds(
    c: CandidateView,
    search_title: Seq<char>,
    search_author: Option<Seq<char>>,
    is_japanese: bool,
)
    ensures
        0 <= candidate_score(c, search_title, search_author, is_japanese) <= MAX_SCORE,
{
}

/// A title of the candidate, an alternative or the primary one, that
/// contains the search title or is contained in it brings the title part to
/// 90 points or more. The titles are counted from 0, the alternatives first
/// and the primary title behind them.
pub proof fn lemma_containment_scores_ninety(c: CandidateView, search_title: Seq<char>, k: int)
    requires
        normalized(search_title).len() > 0,
        0 <= k <= c.title_alternatives.len(),
        split_words(normalized(c.title_alternatives.push(c.title)[k])).len() > 0,
        is_substring(
            normalized(search_title),
            normalized(c.title_alternatives.push(c.title)[k]),
        ) || is_substring(
            normalized(c.title_alternatives.push(c.title)[k]),
            normalized(search_title),
        ),
    ensures
        title_score(c, normalized(search_title)) >= CONTAINMENT_SCORE,
{
    let titles = c.title_alternatives.push(c.title);
    lemma_best_alternative_covers(normalized(search_title), titles, k);
}

/// The best of the titles is at least what each of them earns.
pub proof fn lemma_best_alternative_covers(norm_search: Seq<char>, titles: Seq<Seq<char>>, k: int)
    requires
        0 <= k < titles.len(),
    ensures
        best_alternative(norm_search, titles) >= alternative_score(
            norm_search,
            normalized(titles[k]),
        ),
    decreases titles.len(),
{
    if k < titles.len() - 1 {
        lemma_best_alternative_covers(norm_search, titles.drop_last(), k);
    }
}

/// Share of common words of two word lists, times 100 points.
pub fn jaccard(a: &Vec<Vec<char>>, b: &Vec<Vec<char>>) -> (r: u32)
    ensures
        r == jaccard_score(texts(a@), texts(b@)),
        r <= MAX_SCORE,
{
    let shared = count_shared(a, b);
    let union = count_union(a, b);
    proof {
        lemma_jaccard_bounds(texts(a@), texts(b@));
    }
    if union > 0 {
        let scaled: u128 = (MAX_SCORE as u128) * (shared as u128);
        let q: u128 = scaled / (union as u128);
        q as u32
    } else {
        0
    }
}

/// What one alternative title earns against the normalised search title.
pub fn score_alternative(norm_search: &Vec<char>, search_words: &Vec<Vec<char>>, alt: &str) -> (r:
    u32)
    requires
        texts(search_words@) == split_words(norm_search@),
    ensures
        r == alternative_score(norm_search@, normalized(alt@)),
        r <= MAX_SCORE,
{
    let norm_alt_text = normalize(alt);
    let norm_alt = chars_of(norm_alt_text.as_str());
    let alt_words = split_whitespace(&norm_alt);
    if alt_words.len() == 0 {
        return 0;
    }
    let j = jaccard(search_words, &alt_words);
    if (contains_sub(&norm_alt, norm_search) || contains_sub(norm_search, &norm_alt)) && j
        < CONTAINMENT_SCORE {
        CONTAINMENT_SCORE
    } else {
        j
    }
}

/// Title part of the score.
pub fn title_similarity(candidate: &MetadataCandidate, norm_search: &Vec<char>) -> (r: u32)
    ensures
        r == title_score(candidate@, norm_search@),
        r <= MAX_SCORE,
{
    if norm_search.len() == 0 {
        return 0;
    }
    let search_words = split_whitespace(norm_search);
    let ghost alts = strings(candidate.title_alternatives@);
    let mut best: u32 = 0;
    let mut i: usize = 0;
    while i < candidate.title_alternatives.len()
        invariant
            i <= candidate.title_alternatives.len(),
            alts == strings(candidate.title_alternatives@),
            texts(search_words@) == split_words(norm_search@),
            best == best_alternative(norm_search@, alts.take(i as int)),
            best <= MAX_SCORE,
        decreases candidate.title_alternatives.len() - i,
    {
        proof {
            assert(alts.take(i as int + 1).drop_last() =~= alts.take(i as int));
        }
        let here = score_alternative(norm_search, &search_words, candidate.title_alternatives[i].as_str());
        if here > best {
            best = here;
        }
        i += 1;
    }
    proof {
        assert(alts.take(alts.len() as int) =~= alts);
        assert(alts.push(candidate.title@).drop_last() =~= alts);
    }
    let here = score_alternative(norm_search, &search_words, candidate.title.as_str());
    if here > best {
        best = here;
    }
    best
}

/// The text of an optional string slice.
pub open spec fn optional_str(o: Option<&str>) -> Option<Seq<char>> {
    match o {
        Some(s) => Some(s@),
        None => None,
    }
}

/// Author part of the score.
pub fn author_score(candidate: &MetadataCandidate, search_author: Option<&str>) -> (r: u32)
    ensures
        r == author_score_of(candidate@.author, optional_str(search_author)),
        r <= MAX_SCORE,
{
    proof {
        lemma_author_score_bounds(candidate@.author, optional_str(search_author));
    }
    match (&candidate.author, search_author) {
        (Some(ca), Some(sa)) => {
            let cn_text = normalize(ca.as_str());
            let sn_text = normalize(sa);
            let cn = chars_of(cn_text.as_str());
            let sn = chars_of(sn_text.as_str());
            if contains_sub(&cn, &sn) || contains_sub(&sn, &cn) {
                MAX_SCORE
            } else {
                let cw = split_whitespace(&cn);
                let sw = split_whitespace(&sn);
                let shared = count_shared(&cw, &sw);
                if shared > 0 {
                    let wanted = distinct(&sw).len();
                    proof {
                        broadcast use vstd::seq_lib::seq_to_set_is_finite;

                        vstd::set_lib::lemma_len_subset(
                            texts(cw@).to_set().intersect(texts(sw@).to_set()),
                            texts(sw@).to_set(),
                        );
                    }
                    let scaled: u128 = (shared as u128) * (AUTHOR_OVERLAP_SCORE as u128);
                    let q: u128 = scaled / (wanted as u128);
                    q as u32
                } else {
                    0
                }
            }
        },
        (Some(_), None) => NEUTRAL_SCORE,
        (None, Some(_)) => 0,
        (None, None) => NEUTRAL_SCORE,
    }
}

/// What the kind of work adds to the weighted sum.
pub fn media_type_adjustment(media_type: MediaType, is_japanese: bool, norm_search: &Vec<char>) -> (r:
    i32)
    ensures
        r == media_adjustment(media_type, is_japanese, norm_search@),
{
    match media_type {
        MediaType::Book => 0,
        MediaType::Manga => {
            if is_japanese {
                MANGA_BOOST
            } else {
                0
            }
        },
        MediaType::Anime => {
            if is_japanese {
                0
            } else if looks_western_book(norm_search) {
                -ANIME_PENALTY
            } else {
                0
            }
        },
    }
}

/// The weighted sum of the parts with the adjustment added, brought into the
/// range from 0 to 100 points.
pub open spec fn combined(title: int, author: int, cover: int, description: int, adjustment: int)
    -> int {
    clamped(weighted_base(title, author, cover, description) + adjustment)
}

/// A part of a score times its weight in per cent.
pub fn weigh(weight: u32, part: u32) -> (r: u64)
    ensures
        r == weight * part,
{
    proof {
        assert(weight * part <= 0xFFFF_FFFF * 0xFFFF_FFFF) by (nonlinear_arith)
            requires
                0 <= weight <= 0xFFFF_FFFF,
                0 <= part <= 0xFFFF_FFFF,
        ;
    }
    (weight as u64) * (part as u64)
}

/// Puts the parts of a score together.
pub fn combine(title: u32, author: u32, cover: u32, description: u32, adjustment: i32) -> (score:
    u32)
    ensures
        score == combined(
            title as int,
            author as int,
            cover as int,
            description as int,
            adjustment as int,
        ),
        score <= MAX_SCORE,
{
    let title_part = weigh(TITLE_WEIGHT, title);
    let author_part = weigh(AUTHOR_WEIGHT, author);
    let year_part = weigh(YEAR_WEIGHT, NEUTRAL_SCORE);
    let language_part = weigh(LANGUAGE_WEIGHT, NEUTRAL_SCORE);
    let cover_part = weigh(COVER_WEIGHT, cover);
    let description_part = weigh(DESCRIPTION_WEIGHT, description);
    let sum: u64 = (title_part + author_part + year_part + language_part + cover_part
        + description_part) / 100;
    let base: i64 = if sum > MAX_SCORE as u64 {
        MAX_SCORE as i64
    } else {
        sum as i64
    };
    let total: i64 = base + adjustment as i64;
    if total < 0 {
        0
    } else if total > MAX_SCORE as i64 {
        MAX_SCORE
    } else {
        total as u32
    }
}

/// Scores a candidate, from 0 to 100 points in thousandths of a point. The
/// script of the search text is taken from `ctx`, or from the title if there
/// is no context.
pub fn score_candidate_with_context(
    candidate: &MetadataCandidate,
    search_title: &str,
    search_author: Option<&str>,
    _preferred_language: Option<&str>,
    ctx: Option<&ScoreContext>,
) -> (score: u32)
    ensures
        score == candidate_score(
            candidate@,
            search_title@,
            optional_str(search_author),
            match ctx {
                Some(c) => c.is_japanese,
                None => has_cjk(search_title@),
            },
        ),
        score <= MAX_SCORE,
{
    let norm_text = normalize(search_title);
    let norm_search = chars_of(norm_text.as_str());
    let is_japanese = match ctx {
        Some(c) => c.is_japanese,
        None => contains_japanese(search_title),
    };
    let title = title_similarity(candidate, &norm_search);
    let author = author_score(candidate, search_author);
    let cover: u32 = if candidate.cover_url.is_some() {
        MAX_SCORE
    } else {
        0
    };
    let description: u32 = if candidate.description.is_some() {
        MAX_SCORE
    } else {
        0
    };
    let adjustment = media_type_adjustment(candidate.media_type, is_japanese, &norm_search);
    combine(title, author, cover, description, adjustment)
}

/// Scores a candidate when nothing but the title tells the script.
pub fn score_candidate(
    candidate: &MetadataCandidate,
    search_title: &str,
    search_author: Option<&str>,
    _preferred_language: Option<&str>,
) -> (score: u32)
    ensures
        score == candidate_score(
            candidate@,
            search_title@,
            optional_str(search_author),
            has_cjk(search_title@),
        ),
        score <= MAX_SCORE,
{
    score_candidate_with_context(candidate, search_title, search_author, _preferred_language, None)
}

} // verus!
