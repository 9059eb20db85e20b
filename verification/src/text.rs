//! Character-level text helpers shared by the whole pipeline.
//!
//! Executable code works on `Vec<char>`; contracts speak of `Seq<char>`.

use vstd::prelude::*;

verus! {

/// `String::push` appends one character to the end of the string.
pub assume_specification[ String::push ](s: &mut String, c: char)
    ensures
        final(s)@ == old(s)@.push(c),
;

/// Whether `c` counts as alphanumeric, as `char::is_alphanumeric` reports it.
pub uninterp spec fn unicode_alphanumeric(c: char) -> bool;

/// What `str::to_lowercase` makes of a text.
pub uninterp spec fn lowercase_of(s: Seq<char>) -> Seq<char>;

/// Whitespace: the characters to which Unicode gives the `White_Space`
/// property. These are the tab, the line feed, the vertical tab, the form
/// feed and the carriage return, the space, the next-line character, the
/// no-break space, the Ogham space mark, the spaces from the en quad to the
/// hair space, the line and the paragraph separator, the narrow no-break
/// space, the medium mathematical space and the ideographic space.
pub open spec fn is_space_char(c: char) -> bool {
    ('\u{9}' <= c <= '\u{D}') || c == ' ' || c == '\u{85}' || c == '\u{A0}' || c == '\u{1680}' || (
    '\u{2000}' <= c <= '\u{200A}') || c == '\u{2028}' || c == '\u{2029}' || c == '\u{202F}' || c
        == '\u{205F}' || c == '\u{3000}'
}

/// Calls `char::is_whitespace`. Trusted: the answer is the Unicode `White_Space`
/// property of the character.
#[verifier::external_body]
pub(crate) fn is_whitespace(c: char) -> (b: bool)
    ensures
        b == is_space_char(c),
{
    c.is_whitespace()
}

/// Calls `char::is_alphanumeric`. Trusted: the answer depends on the character
/// alone.
#[verifier::external_body]
pub(crate) fn is_alphanumeric(c: char) -> (b: bool)
    ensures
        b == unicode_alphanumeric(c),
{
    c.is_alphanumeric()
}

/// Calls `str::to_lowercase`. Trusted: the result depends on the text alone.
#[verifier::external_body]
pub(crate) fn to_lowercase(s: &str) -> (r: String)
    ensures
        r@ == lowercase_of(s@),
{
    s.to_lowercase()
}

/// An ASCII digit.
pub open spec fn is_digit_char(c: char) -> bool {
    '0' <= c <= '9'
}

/// Whether a character is an ASCII digit.
pub fn is_ascii_digit(c: char) -> (b: bool)
    ensures
        b == is_digit_char(c),
{
    '0' <= c && c <= '9'
}

/// The characters of `s`, in order.
pub fn chars_of(s: &str) -> (v: Vec<char>)
    ensures
        v@ == s@,
{
    let mut v: Vec<char> = Vec::new();
    for c in it: s.chars()
        invariant
            it.seq() == s@,
            v@ == it.seq().take(it.index()),
    {
        v.push(c);
    }
    v
}

/// The string whose characters are `v`, in order.
pub fn string_of(v: &Vec<char>) -> (s: String)
    ensures
        s@ == v@,
{
    let mut s = String::new();
    let mut i: usize = 0;
    while i < v.len()
        invariant
            i <= v.len(),
            s@ == v@.take(i as int),
        decreases v.len() - i,
    {
        s.push(v[i]);
        i += 1;
    }
    s
}

/// The texts that a list of character vectors stands for.
pub open spec fn texts(v: Seq<Vec<char>>) -> Seq<Seq<char>> {
    Seq::new(v.len(), |i: int| v[i]@)
}

/// Pushing a vector pushes its text.
pub proof fn lemma_texts_push(v: Seq<Vec<char>>, w: Vec<char>)
    ensures
        texts(v.push(w)) == texts(v).push(w@),
{
    assert(texts(v.push(w)) =~= texts(v).push(w@));
}

/// Pushing a string pushes its text.
pub proof fn lemma_strings_push(v: Seq<String>, w: String)
    ensures
        strings(v.push(w)) == strings(v).push(w@),
{
    assert(strings(v.push(w)) =~= strings(v).push(w@));
}

/// The texts that a list of strings stands for.
pub open spec fn strings(v: Seq<String>) -> Seq<Seq<char>> {
    Seq::new(v.len(), |i: int| v[i]@)
}

/// A pending word, as a list of zero or one words.
pub open spec fn flush(cur: Seq<char>) -> Seq<Seq<char>> {
    if cur.len() > 0 {
        seq![cur]
    } else {
        Seq::empty()
    }
}

/// The words of `s` when `cur` is the unfinished word read so far.
pub open spec fn words_from(s: Seq<char>, cur: Seq<char>) -> Seq<Seq<char>>
    decreases s.len(),
{
    if s.len() == 0 {
        flush(cur)
    } else if is_space_char(s[0]) {
        flush(cur) + words_from(s.drop_first(), Seq::empty())
    } else {
        words_from(s.drop_first(), cur.push(s[0]))
    }
}

/// The maximal runs of non-whitespace characters of `s`, in order.
pub open spec fn split_words(s: Seq<char>) -> Seq<Seq<char>> {
    words_from(s, Seq::empty())
}

/// `parts` written one after another with `sep` between neighbours.
pub open spec fn join_with(parts: Seq<Seq<char>>, sep: Seq<char>) -> Seq<char>
    decreases parts.len(),
{
    if parts.len() == 0 {
        Seq::empty()
    } else if parts.len() == 1 {
        parts[0]
    } else {
        join_with(parts.drop_last(), sep) + sep + parts.last()
    }
}

/// Words joined by single spaces.
pub open spec fn join_words(words: Seq<Seq<char>>) -> Seq<char> {
    join_with(words, seq![' '])
}

/// Splits a text at whitespace, dropping empty pieces.
pub fn split_whitespace(s: &Vec<char>) -> (words: Vec<Vec<char>>)
    ensures
        texts(words@) == split_words(s@),
{
    let mut words: Vec<Vec<char>> = Vec::new();
    let mut cur: Vec<char> = Vec::new();
    let mut i: usize = 0;
    proof {
        assert(s@.skip(0) =~= s@);
        assert(texts(words@) + words_from(s@, cur@) =~= split_words(s@));
    }
    while i < s.len()
        invariant
            i <= s.len(),
            split_words(s@) == texts(words@) + words_from(s@.skip(i as int), cur@),
        decreases s.len() - i,
    {
        let c = s[i];
        let ghost rest = s@.skip(i as int);
        let ghost before = texts(words@);
        let ghost pending = cur@;
        proof {
            assert(rest.drop_first() =~= s@.skip(i as int + 1));
            assert(rest[0] == c);
        }
        if is_whitespace(c) {
            if cur.len() > 0 {
                words.push(cur);
                cur = Vec::new();
            }
            proof {
                assert(texts(words@) =~= before + flush(pending));
                assert(cur@ =~= Seq::<char>::empty());
                assert(words_from(rest, pending) == flush(pending) + words_from(
                    rest.drop_first(),
                    Seq::empty(),
                ));
                assert(texts(words@) + words_from(rest.drop_first(), cur@) =~= before
                    + words_from(rest, pending));
            }
        } else {
            cur.push(c);
        }
        i += 1;
    }
    if cur.len() > 0 {
        let ghost before = texts(words@);
        words.push(cur);
        assert(texts(words@) =~= before + flush(cur@));
    } else {
        assert(texts(words@) + flush(cur@) =~= texts(words@));
    }
    words
}

/// Writes the parts one after another with `sep` between neighbours.
pub fn join(parts: &Vec<Vec<char>>, sep: &Vec<char>) -> (out: Vec<char>)
    ensures
        out@ == join_with(texts(parts@), sep@),
{
    let mut out: Vec<char> = Vec::new();
    let mut i: usize = 0;
    while i < parts.len()
        invariant
            i <= parts.len(),
            out@ == join_with(texts(parts@).take(i as int), sep@),
        decreases parts.len() - i,
    {
        let ghost prefix = texts(parts@).take(i as int + 1);
        proof {
            assert(prefix.drop_last() == texts(parts@).take(i as int));
            assert(prefix.last() == parts@[i as int]@);
        }
        if i > 0 {
            append(&mut out, sep);
        }
        append(&mut out, &parts[i]);
        i += 1;
    }
    proof {
        assert(texts(parts@).take(parts.len() as int) == texts(parts@));
    }
    out
}

/// Appends the characters of `tail` to `out`.
pub fn append(out: &mut Vec<char>, tail: &Vec<char>)
    ensures
        final(out)@ == old(out)@ + tail@,
{
    let mut j: usize = 0;
    while j < tail.len()
        invariant
            j <= tail.len(),
            out@ == old(out)@ + tail@.take(j as int),
        decreases tail.len() - j,
    {
        out.push(tail[j]);
        j += 1;
    }
    proof {
        assert(tail@.take(tail.len() as int) == tail@);
    }
}

/// Whether two texts are the same.
pub fn same_text(a: &Vec<char>, b: &Vec<char>) -> (r: bool)
    ensures
        r == (a@ == b@),
{
    if a.len() != b.len() {
        return false;
    }
    let mut i: usize = 0;
    while i < a.len()
        invariant
            i <= a.len(),
            a.len() == b.len(),
            a@.take(i as int) == b@.take(i as int),
        decreases a.len() - i,
    {
        if a[i] != b[i] {
            return false;
        }
        proof {
            assert(a@.take(i as int + 1) =~= a@.take(i as int).push(a@[i as int]));
            assert(b@.take(i as int + 1) =~= b@.take(i as int).push(b@[i as int]));
        }
        i += 1;
    }
    proof {
        assert(a@.take(a.len() as int) =~= a@);
        assert(b@.take(b.len() as int) =~= b@);
    }
    true
}

/// Whether `word` is one of `list`.
pub fn contains_text(list: &Vec<Vec<char>>, word: &Vec<char>) -> (r: bool)
    ensures
        r == texts(list@).contains(word@),
{
    let mut i: usize = 0;
    while i < list.len()
        invariant
            i <= list.len(),
            forall|k: int| 0 <= k < i ==> (#[trigger] texts(list@)[k]) != word@,
        decreases list.len() - i,
    {
        if same_text(&list[i], word) {
            proof {
                assert(texts(list@)[i as int] == word@);
            }
            return true;
        }
        i += 1;
    }
    false
}

/// `needle` occurs in `hay` at position `at`.
pub open spec fn occurs_at(needle: Seq<char>, hay: Seq<char>, at: int) -> bool {
    0 <= at && at + needle.len() <= hay.len() && hay.subrange(at, at + needle.len()) == needle
}

/// `needle` occurs somewhere in `hay`. The empty text occurs in every text.
pub open spec fn is_substring(needle: Seq<char>, hay: Seq<char>) -> bool {
    exists|at: int| occurs_at(needle, hay, at)
}

/// Whether `needle` stands in `hay` at position `at`.
pub fn matches_at(needle: &Vec<char>, hay: &Vec<char>, at: usize) -> (r: bool)
    ensures
        r == occurs_at(needle@, hay@, at as int),
{
    if at > hay.len() || needle.len() > hay.len() - at {
        return false;
    }
    let mut j: usize = 0;
    while j < needle.len()
        invariant
            j <= needle.len(),
            at + needle.len() <= hay.len(),
            forall|k: int| 0 <= k < j ==> hay@[at + k] == needle@[k],
        decreases needle.len() - j,
    {
        if hay[at + j] != needle[j] {
            proof {
                let sub = hay@.subrange(at as int, at + needle.len());
                assert(sub[j as int] == hay@[at + j]);
            }
            return false;
        }
        j += 1;
    }
    proof {
        assert(hay@.subrange(at as int, at + needle.len()) =~= needle@);
    }
    true
}

/// Whether `needle` occurs in `hay`.
pub fn contains_sub(hay: &Vec<char>, needle: &Vec<char>) -> (r: bool)
    ensures
        r == is_substring(needle@, hay@),
{
    if needle.len() > hay.len() {
        return false;
    }
    let last: usize = hay.len() - needle.len();
    let mut at: usize = 0;
    loop
        invariant
            at <= last,
            last == hay.len() - needle.len(),
            forall|k: int| 0 <= k < at ==> !occurs_at(needle@, hay@, k),
        decreases last - at,
    {
        if matches_at(needle, hay, at) {
            return true;
        }
        if at == last {
            return false;
        }
        at += 1;
    }
}

/// The part of `s` from `from` up to `to`.
pub fn slice(s: &Vec<char>, from: usize, to: usize) -> (r: Vec<char>)
    requires
        from <= to <= s.len(),
    ensures
        r@ == s@.subrange(from as int, to as int),
{
    let mut r: Vec<char> = Vec::new();
    let mut i: usize = from;
    while i < to
        invariant
            from <= i <= to <= s.len(),
            r@ == s@.subrange(from as int, i as int),
        decreases to - i,
    {
        r.push(s[i]);
        proof {
            assert(r@ =~= s@.subrange(from as int, i as int + 1));
        }
        i += 1;
    }
    r
}

/// Where the leading whitespace of `s` ends.
pub open spec fn leading_space(s: Seq<char>) -> int
    decreases s.len(),
{
    if s.len() > 0 && is_space_char(s[0]) {
        1 + leading_space(s.drop_first())
    } else {
        0
    }
}

/// How long `s` is without its trailing whitespace.
pub open spec fn without_trailing_space(s: Seq<char>) -> int
    decreases s.len(),
{
    if s.len() > 0 && is_space_char(s.last()) {
        without_trailing_space(s.drop_last())
    } else {
        s.len() as int
    }
}

/// `s` without its leading and trailing whitespace.
pub open spec fn trimmed(s: Seq<char>) -> Seq<char> {
    let kept = s.take(without_trailing_space(s));
    kept.skip(leading_space(kept))
}

/// Strips whitespace from both ends.
pub fn trim(s: &Vec<char>) -> (r: Vec<char>)
    ensures
        r@ == trimmed(s@),
{
    let mut end: usize = s.len();
    proof {
        assert(s@.take(end as int) =~= s@);
    }
    while end > 0 && is_whitespace(s[end - 1])
        invariant
            end <= s.len(),
            without_trailing_space(s@) == without_trailing_space(s@.take(end as int)),
        decreases end,
    {
        proof {
            assert(s@.take(end as int).drop_last() =~= s@.take(end as int - 1));
        }
        end -= 1;
    }
    proof {
        if end == 0 {
            assert(s@.take(0).len() == 0);
        }
        assert(without_trailing_space(s@) == end);
    }
    let ghost kept = s@.take(end as int);
    let mut start: usize = 0;
    proof {
        assert(kept.skip(0) =~= kept);
    }
    while start < end && is_whitespace(s[start])
        invariant
            start <= end <= s.len(),
            kept == s@.take(end as int),
            leading_space(kept) == start + leading_space(kept.skip(start as int)),
        decreases end - start,
    {
        proof {
            assert(kept.skip(start as int).drop_first() =~= kept.skip(start as int + 1));
        }
        start += 1;
    }
    proof {
        assert(kept.skip(start as int).len() == end - start);
        assert(leading_space(kept) == start);
        assert(kept.skip(start as int) =~= s@.subrange(start as int, end as int));
    }
    slice(s, start, end)
}

/// The first place at or after `from` where `needle` occurs in `hay`.
pub open spec fn find_from(needle: Seq<char>, hay: Seq<char>, from: int) -> Option<int>
    decreases hay.len() - from,
{
    if from < 0 || from + needle.len() > hay.len() {
        None
    } else if occurs_at(needle, hay, from) {
        Some(from)
    } else if from == hay.len() {
        None
    } else {
        find_from(needle, hay, from + 1)
    }
}

/// Finds the first place at or after `from` where `needle` occurs in `hay`.
pub fn find_sub(hay: &Vec<char>, needle: &Vec<char>, from: usize) -> (r: Option<usize>)
    ensures
        r is Some == find_from(needle@, hay@, from as int) is Some,
        r matches Some(p) ==> find_from(needle@, hay@, from as int) == Some(p as int) && from
            <= p && p + needle.len() <= hay.len() && occurs_at(needle@, hay@, p as int),
{
    if from > hay.len() || needle.len() > hay.len() - from {
        return None;
    }
    let last: usize = hay.len() - needle.len();
    let mut at: usize = from;
    loop
        invariant
            from <= at <= last,
            last == hay.len() - needle.len(),
            find_from(needle@, hay@, from as int) == find_from(needle@, hay@, at as int),
        decreases last - at,
    {
        if matches_at(needle, hay, at) {
            return Some(at);
        }
        if at == last {
            proof {
                assert(find_from(needle@, hay@, at as int + 1) is None);
            }
            return None;
        }
        at += 1;
    }
}

/// The pieces of `hay` from `start` on, cut at each occurrence of `sep`, the
/// occurrences taken from left to right without overlap. Empty pieces count.
pub open spec fn split_from(hay: Seq<char>, sep: Seq<char>, start: int) -> Seq<Seq<char>>
    decreases hay.len() - start,
{
    match find_from(sep, hay, start) {
        Some(p) => if sep.len() > 0 && start <= p && p + sep.len() <= hay.len() {
            seq![hay.subrange(start, p)] + split_from(hay, sep, p + sep.len())
        } else {
            seq![hay.skip(start)]
        },
        None => seq![hay.skip(start)],
    }
}

/// The pieces of `hay` between the occurrences of `sep`.
pub open spec fn split_on(hay: Seq<char>, sep: Seq<char>) -> Seq<Seq<char>> {
    split_from(hay, sep, 0)
}

/// Cuts `hay` at each occurrence of `sep`.
pub fn split(hay: &Vec<char>, sep: &Vec<char>) -> (pieces: Vec<Vec<char>>)
    requires
        sep.len() > 0,
    ensures
        texts(pieces@) == split_on(hay@, sep@),
{
    let mut pieces: Vec<Vec<char>> = Vec::new();
    let mut start: usize = 0;
    proof {
        assert(texts(pieces@) + split_from(hay@, sep@, 0) =~= split_on(hay@, sep@));
    }
    loop
        invariant
            sep.len() > 0,
            start <= hay.len(),
            split_on(hay@, sep@) == texts(pieces@) + split_from(hay@, sep@, start as int),
        decreases hay.len() - start,
    {
        let ghost before = texts(pieces@);
        match find_sub(hay, sep, start) {
            Some(p) => {
                let piece = slice(hay, start, p);
                proof {
                    lemma_texts_push(pieces@, piece);
                    assert(before.push(piece@) + split_from(hay@, sep@, p + sep.len()) =~= before
                        + split_from(hay@, sep@, start as int));
                }
                pieces.push(piece);
                start = p + sep.len();
            },
            None => {
                let piece = slice(hay, start, hay.len());
                proof {
                    lemma_texts_push(pieces@, piece);
                    assert(piece@ =~= hay@.skip(start as int));
                    assert(before.push(piece@) =~= before + split_from(hay@, sep@, start as int));
                }
                pieces.push(piece);
                return pieces;
            },
        }
    }
}

/// A text that neither begins nor ends with whitespace.
pub open spec fn has_no_outer_space(s: Seq<char>) -> bool {
    s.len() > 0 ==> !is_space_char(s[0]) && !is_space_char(s.last())
}

/// A text without outer whitespace is its own trimmed form.
pub proof fn lemma_trim_without_outer_space(s: Seq<char>)
    requires
        has_no_outer_space(s),
    ensures
        trimmed(s) == s,
{
    assert(s.take(s.len() as int) =~= s);
    assert(s.skip(0) =~= s);
}

/// Where the leading whitespace ends there is no whitespace.
pub proof fn lemma_leading_space_stops(s: Seq<char>)
    ensures
        0 <= leading_space(s) <= s.len(),
        leading_space(s) < s.len() ==> !is_space_char(s[leading_space(s)]),
        forall|k: int| 0 <= k < leading_space(s) ==> is_space_char(#[trigger] s[k]),
    decreases s.len(),
{
    if s.len() > 0 && is_space_char(s[0]) {
        let rest = s.drop_first();
        lemma_leading_space_stops(rest);
        assert forall|k: int| 0 <= k < leading_space(s) implies is_space_char(#[trigger] s[k]) by {
            if k > 0 {
                assert(s[k] == rest[k - 1]);
            }
        }
        if leading_space(s) < s.len() {
            assert(s[leading_space(s)] == rest[leading_space(rest)]);
        }
    }
}

/// Before the trailing whitespace begins there is no whitespace.
pub proof fn lemma_trailing_space_stops(s: Seq<char>)
    ensures
        0 <= without_trailing_space(s) <= s.len(),
        without_trailing_space(s) > 0 ==> !is_space_char(s[without_trailing_space(s) - 1]),
        forall|k: int| without_trailing_space(s) <= k < s.len() ==> is_space_char(#[trigger] s[k]),
    decreases s.len(),
{
    if s.len() > 0 && is_space_char(s.last()) {
        let rest = s.drop_last();
        lemma_trailing_space_stops(rest);
        assert forall|k: int| without_trailing_space(s) <= k < s.len() implies is_space_char(
            #[trigger] s[k],
        ) by {
            if k < s.len() - 1 {
                assert(s[k] == rest[k]);
            }
        }
        if without_trailing_space(s) > 0 {
            assert(s[without_trailing_space(s) - 1] == rest[without_trailing_space(rest) - 1]);
        }
    }
}

/// A trimmed text neither begins nor ends with whitespace.
pub proof fn lemma_trimmed_has_no_outer_space(s: Seq<char>)
    ensures
        has_no_outer_space(trimmed(s)),
{
    lemma_trailing_space_stops(s);
    let kept = s.take(without_trailing_space(s));
    lemma_leading_space_stops(kept);
    let t = trimmed(s);
    if t.len() > 0 {
        assert(t[0] == kept[leading_space(kept)]);
        assert(t.last() == kept[kept.len() - 1]);
        assert(kept[kept.len() - 1] == s[without_trailing_space(s) - 1]);
    }
}

} // verus!
