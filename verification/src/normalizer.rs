//! Canonical form of titles, authors and file names before they are compared
//! or sent out as search queries.

use crate::normalizer_laws::lemma_normalize_is_idempotent;
use crate::text::{
    chars_of, is_alphanumeric, is_space_char, is_whitespace, join, join_words, lowercase_of,
    split_whitespace, split_words, string_of, to_lowercase, unicode_alphanumeric,
};
use regex::Regex;
use vstd::prelude::*;

verus! {

/// Edition and volume phrases, Portuguese and English, that carry no
/// information about which work a title names.
pub const EDITION_PATTERN: &'static str =
    r"(?i)(\d+(?:ª|º|st|nd|rd|th)?\s*ed(?:i[cç][aã]o|ition|\.)?\b|revised\s+edition|ed\.?\s*\d+|volume\s*\d+|vol\.?\s*\d+)";

/// What `Regex::replace_all` makes of `text` when every match of `pattern` is
/// replaced by `replacement`; `None` when `pattern` is no regular expression.
pub uninterp spec fn regex_replaced(
    pattern: Seq<char>,
    text: Seq<char>,
    replacement: Seq<char>,
) -> Option<Seq<char>>;

/// Every character of `t` occurs in `pool`.
pub open spec fn drawn_from(t: Seq<char>, pool: Seq<char>) -> bool {
    forall|i: int| 0 <= i < t.len() ==> pool.contains(#[trigger] t[i])
}

/// Compiles `pattern` with `Regex::new` and calls `Regex::replace_all`.
/// Trusted: the result depends on the three texts alone, and a replaced text
/// is made of pieces of `text` and of `replacement`.
#[verifier::external_body]
pub(crate) fn regex_replace_all(pattern: &str, text: &str, replacement: &str) -> (r: Option<
    String,
>)
    ensures
        r is Some <==> regex_replaced(pattern@, text@, replacement@) is Some,
        r matches Some(t) ==> regex_replaced(pattern@, text@, replacement@) == Some(t@)
            && drawn_from(t@, text@ + replacement@),
{
    match Regex::new(pattern) {
        Ok(re) => Some(re.replace_all(text, replacement).into_owned()),
        Err(_) => None,
    }
}

/// The ASCII base letter, in lower case, of an accented Latin letter: of
/// every letter of the Latin-1 Supplement and of Latin Extended-A that is a
/// letter of the ASCII alphabet with an accent, a cedilla, an ogonek, a dot
/// or a stroke, or without its dot. Ligatures and letters without an ASCII
/// base, and every other character, are left as they are.
pub open spec fn fold_accent(c: char) -> char {
    if ('\u{C0}' <= c <= '\u{C5}') || ('\u{E0}' <= c <= '\u{E5}') || ('\u{100}' <= c <= '\u{105}') {
        'a'
    } else if c == '\u{C7}' || c == '\u{E7}' || ('\u{106}' <= c <= '\u{10D}') {
        'c'
    } else if ('\u{10E}' <= c <= '\u{111}') {
        'd'
    } else if ('\u{C8}' <= c <= '\u{CB}') || ('\u{E8}' <= c <= '\u{EB}') || ('\u{112}' <= c <= '\u{11B}') {
        'e'
    } else if ('\u{11C}' <= c <= '\u{123}') {
        'g'
    } else if ('\u{124}' <= c <= '\u{127}') {
        'h'
    } else if ('\u{CC}' <= c <= '\u{CF}') || ('\u{EC}' <= c <= '\u{EF}') || ('\u{128}' <= c <= '\u{131}') {
        'i'
    } else if ('\u{134}' <= c <= '\u{135}') {
        'j'
    } else if ('\u{136}' <= c <= '\u{137}') {
        'k'
    } else if ('\u{139}' <= c <= '\u{142}') {
        'l'
    } else if c == '\u{D1}' || c == '\u{F1}' || ('\u{143}' <= c <= '\u{148}') {
        'n'
    } else if ('\u{D2}' <= c <= '\u{D6}') || c == '\u{D8}' || ('\u{F2}' <= c <= '\u{F6}') || c == '\u{F8}' || ('\u{14C}' <= c <= '\u{151}') {
        'o'
    } else if ('\u{154}' <= c <= '\u{159}') {
        'r'
    } else if ('\u{15A}' <= c <= '\u{161}') {
        's'
    } else if ('\u{162}' <= c <= '\u{167}') {
        't'
    } else if ('\u{D9}' <= c <= '\u{DC}') || ('\u{F9}' <= c <= '\u{FC}') || ('\u{168}' <= c <= '\u{173}') {
        'u'
    } else if ('\u{174}' <= c <= '\u{175}') {
        'w'
    } else if c == '\u{DD}' || c == '\u{FD}' || c == '\u{FF}' || ('\u{176}' <= c <= '\u{178}') {
        'y'
    } else if ('\u{179}' <= c <= '\u{17E}') {
        'z'
    } else {
        c
    }
}

/// A text with the accents of every character folded.
pub open spec fn fold_accents(s: Seq<char>) -> Seq<char> {
    Seq::new(s.len(), |i: int| fold_accent(s[i]))
}

/// `text` with every edition or volume phrase replaced by one space.
pub open spec fn edition_stripped(text: Seq<char>) -> Seq<char> {
    match regex_replaced(EDITION_PATTERN@, text, " "@) {
        Some(t) => if drawn_from(t, text + " "@) {
            t
        } else {
            text
        },
        None => text,
    }
}

/// The character that stands for `c` once punctuation is blanked.
pub open spec fn blank_punctuation(c: char) -> char {
    if unicode_alphanumeric(c) || is_space_char(c) {
        c
    } else {
        ' '
    }
}

/// A text with every character that is neither a letter, a digit nor
/// whitespace replaced by a space.
pub open spec fn punctuation_blanked(s: Seq<char>) -> Seq<char> {
    Seq::new(s.len(), |i: int| blank_punctuation(s[i]))
}

/// The canonical form of a text: lower case, accents folded, edition and
/// volume phrases removed, punctuation blanked, and the remaining words
/// joined by single spaces.
pub open spec fn normalized(s: Seq<char>) -> Seq<char> {
    join_words(
        split_words(punctuation_blanked(edition_stripped(fold_accents(lowercase_of(s))))),
    )
}

/// A text that lower-casing and the removal of edition phrases leave alone.
pub open spec fn is_settled(n: Seq<char>) -> bool {
    lowercase_of(n) == n && edition_stripped(n) == n
}

/// Whether lower-casing and the removal of edition phrases leave the text
/// alone. A canonical form of which this holds is its own canonical form.
pub fn settled(text: &str) -> (b: bool)
    ensures
        b == is_settled(text@),
{
    let given = text.to_owned();
    let lowered = to_lowercase(text);
    if lowered != given {
        return false;
    }
    match regex_replace_all(EDITION_PATTERN, text, " ") {
        Some(t) => t == given,
        None => true,
    }
}

/// Folds the accent of one character.
pub fn fold_accent_char(c: char) -> (r: char)
    ensures
        r == fold_accent(c),
{
    if ('\u{C0}' <= c && c <= '\u{C5}') || ('\u{E0}' <= c && c <= '\u{E5}') || ('\u{100}' <= c && c <= '\u{105}') {
        'a'
    } else if c == '\u{C7}' || c == '\u{E7}' || ('\u{106}' <= c && c <= '\u{10D}') {
        'c'
    } else if ('\u{10E}' <= c && c <= '\u{111}') {
        'd'
    } else if ('\u{C8}' <= c && c <= '\u{CB}') || ('\u{E8}' <= c && c <= '\u{EB}') || ('\u{112}' <= c && c <= '\u{11B}') {
        'e'
    } else if ('\u{11C}' <= c && c <= '\u{123}') {
        'g'
    } else if ('\u{124}' <= c && c <= '\u{127}') {
        'h'
    } else if ('\u{CC}' <= c && c <= '\u{CF}') || ('\u{EC}' <= c && c <= '\u{EF}') || ('\u{128}' <= c && c <= '\u{131}') {
        'i'
    } else if ('\u{134}' <= c && c <= '\u{135}') {
        'j'
    } else if ('\u{136}' <= c && c <= '\u{137}') {
        'k'
    } else if ('\u{139}' <= c && c <= '\u{142}') {
        'l'
    } else if c == '\u{D1}' || c == '\u{F1}' || ('\u{143}' <= c && c <= '\u{148}') {
        'n'
    } else if ('\u{D2}' <= c && c <= '\u{D6}') || c == '\u{D8}' || ('\u{F2}' <= c && c <= '\u{F6}') || c == '\u{F8}' || ('\u{14C}' <= c && c <= '\u{151}') {
        'o'
    } else if ('\u{154}' <= c && c <= '\u{159}') {
        'r'
    } else if ('\u{15A}' <= c && c <= '\u{161}') {
        's'
    } else if ('\u{162}' <= c && c <= '\u{167}') {
        't'
    } else if ('\u{D9}' <= c && c <= '\u{DC}') || ('\u{F9}' <= c && c <= '\u{FC}') || ('\u{168}' <= c && c <= '\u{173}') {
        'u'
    } else if ('\u{174}' <= c && c <= '\u{175}') {
        'w'
    } else if c == '\u{DD}' || c == '\u{FD}' || c == '\u{FF}' || ('\u{176}' <= c && c <= '\u{178}') {
        'y'
    } else if ('\u{179}' <= c && c <= '\u{17E}') {
        'z'
    } else {
        c
    }
}

/// Folds the accents of every character.
pub fn fold_text(text: &Vec<char>) -> (r: Vec<char>)
    ensures
        r@ == fold_accents(text@),
{
    let mut folded: Vec<char> = Vec::new();
    let mut i: usize = 0;
    while i < text.len()
        invariant
            i <= text.len(),
            folded@ == fold_accents(text@).take(i as int),
        decreases text.len() - i,
    {
        folded.push(fold_accent_char(text[i]));
        proof {
            assert(folded@ =~= fold_accents(text@).take(i as int + 1));
        }
        i += 1;
    }
    proof {
        assert(folded@ =~= fold_accents(text@));
    }
    folded
}

/// Replaces every edition or volume phrase by one space.
pub fn strip_editions(text: &Vec<char>) -> (r: Vec<char>)
    ensures
        r@ == edition_stripped(text@),
{
    let as_string = string_of(text);
    match regex_replace_all(EDITION_PATTERN, as_string.as_str(), " ") {
        Some(t) => chars_of(t.as_str()),
        None => chars_of(as_string.as_str()),
    }
}

/// Replaces by a space every character that is neither a letter, a digit
/// nor whitespace.
pub fn blank_text(text: &Vec<char>) -> (r: Vec<char>)
    ensures
        r@ == punctuation_blanked(text@),
{
    let mut blanked: Vec<char> = Vec::new();
    let mut j: usize = 0;
    while j < text.len()
        invariant
            j <= text.len(),
            blanked@ == punctuation_blanked(text@).take(j as int),
        decreases text.len() - j,
    {
        let c = text[j];
        if is_alphanumeric(c) || is_whitespace(c) {
            blanked.push(c);
        } else {
            blanked.push(' ');
        }
        proof {
            assert(blanked@ =~= punctuation_blanked(text@).take(j as int + 1));
        }
        j += 1;
    }
    proof {
        assert(blanked@ =~= punctuation_blanked(text@));
    }
    blanked
}

/// Replaces every run of whitespace by one space and drops the whitespace
/// at both ends.
pub fn collapse_whitespace(text: &Vec<char>) -> (r: Vec<char>)
    ensures
        r@ == join_words(split_words(text@)),
{
    let words = split_whitespace(text);
    let mut space: Vec<char> = Vec::new();
    space.push(' ');
    proof {
        assert(space@ =~= seq![' ']);
    }
    join(&words, &space)
}

/// Canonicalises a text. The empty text is a valid result: it says that there
/// is nothing to search for.
pub fn normalize(s: &str) -> (r: String)
    ensures
        r@ == normalized(s@),
        is_settled(r@) ==> normalized(r@) == r@,
{
    proof {
        if is_settled(normalized(s@)) {
            lemma_normalize_is_idempotent(s@);
        }
    }
    let lowered = to_lowercase(s);
    let folded = fold_text(&chars_of(lowered.as_str()));
    let stripped = strip_editions(&folded);
    let blanked = blank_text(&stripped);
    string_of(&collapse_whitespace(&blanked))
}

/// Hiragana, Katakana and the basic CJK ideographs.
pub open spec fn is_cjk_char(c: char) -> bool {
    ('\u{3040}' <= c <= '\u{309F}') || ('\u{30A0}' <= c <= '\u{30FF}') || ('\u{4E00}' <= c
        <= '\u{9FFF}')
}

/// Whether any character of the text is Hiragana, Katakana or a basic CJK
/// ideograph.
pub open spec fn has_cjk(s: Seq<char>) -> bool {
    exists|i: int| 0 <= i < s.len() && is_cjk_char(#[trigger] s[i])
}

/// Whether any character of `s` is Hiragana, Katakana or a basic CJK
/// ideograph. A hint about the script of a title, nothing more.
pub fn contains_japanese(s: &str) -> (b: bool)
    ensures
        b == has_cjk(s@),
{
    let v = chars_of(s);
    let mut i: usize = 0;
    while i < v.len()
        invariant
            i <= v.len(),
            v@ == s@,
            forall|k: int| 0 <= k < i ==> !is_cjk_char(#[trigger] v@[k]),
        decreases v.len() - i,
    {
        let c = v[i];
        if ('\u{3040}' <= c && c <= '\u{309F}') || ('\u{30A0}' <= c && c <= '\u{30FF}') || (
        '\u{4E00}' <= c && c <= '\u{9FFF}') {
            return true;
        }
        i += 1;
    }
    false
}

} // verus!
