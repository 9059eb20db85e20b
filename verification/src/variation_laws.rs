//! What holds of every list of search queries: nothing is repeated, what was
//! added first stays first, and an acronym brings its expansion with it.

use crate::normalizer::normalized;
use crate::normalizer_laws::lemma_normalized_is_trimmed;
use crate::text::{split_on, trimmed};
use crate::variations::{
    acronym_expansion, keywords, leading, main_title, path_variations, variations_of, with_all,
    with_author, with_chapter_name, with_chapter_names, with_delimited, with_segment,
    with_segments, with_stem, with_stems, with_title, with_unique, with_variation,
    without_leading_article, MAX_CHAPTER_NAMES,
};
use vstd::prelude::*;

verus! {

/// `out` is `list` with texts added at its end, and holds no text twice.
pub open spec fn extends(list: Seq<Seq<char>>, out: Seq<Seq<char>>) -> bool {
    &&& list.len() <= out.len()
    &&& forall|i: int| 0 <= i < list.len() ==> out[i] == list[i]
    &&& out.no_duplicates()
}

/// What is in a list is in every list that extends it.
pub proof fn lemma_extends_keeps(list: Seq<Seq<char>>, out: Seq<Seq<char>>, x: Seq<char>)
    requires
        extends(list, out),
        list.contains(x),
    ensures
        out.contains(x),
{
    let k = choose|k: int| 0 <= k < list.len() && list[k] == x;
    assert(out[k] == x);
}

/// Extending an extension extends the list itself.
pub proof fn lemma_extends_chain(a: Seq<Seq<char>>, b: Seq<Seq<char>>, c: Seq<Seq<char>>)
    requires
        extends(a, b),
        extends(b, c),
    ensures
        extends(a, c),
{
    assert forall|i: int| 0 <= i < a.len() implies c[i] == a[i] by {
        assert(b[i] == a[i]);
    }
}

/// Adding a text once keeps the list free of repetitions and in order, and
/// the text is in the list afterwards.
pub proof fn lemma_with_unique(list: Seq<Seq<char>>, s: Seq<char>)
    requires
        list.no_duplicates(),
    ensures
        extends(list, with_unique(list, s)),
        with_unique(list, s).contains(s),
        list.len() == 0 ==> with_unique(list, s)[0] == s,
{
    let out = with_unique(list, s);
    if !list.contains(s) {
        assert(out[list.len() as int] == s);
        assert forall|i: int, j: int| 0 <= i < out.len() && 0 <= j < out.len() && i != j implies out[i]
            != out[j] by {
            if i == list.len() {
                assert(list[j] == out[j]);
                assert(list.contains(out[j]));
            } else if j == list.len() {
                assert(list[i] == out[i]);
                assert(list.contains(out[i]));
            } else {
                assert(list[i] != list[j]);
            }
        }
    }
}

/// Adding a variation keeps the list free of repetitions and in order; the
/// trimmed text is in the list afterwards, and so is its expansion if it is
/// an acronym.
pub proof fn lemma_with_variation(list: Seq<Seq<char>>, s: Seq<char>)
    requires
        list.no_duplicates(),
    ensures
        extends(list, with_variation(list, s)),
        trimmed(s).len() > 0 ==> with_variation(list, s).contains(trimmed(s)),
        trimmed(s).len() > 0 && list.len() == 0 ==> with_variation(list, s)[0] == trimmed(s),
        trimmed(s).len() > 0 ==> (acronym_expansion(trimmed(s)) matches Some(e) ==> with_variation(
            list,
            s,
        ).contains(e)),
{
    let t = trimmed(s);
    if t.len() > 0 {
        lemma_with_unique(list, t);
        let l1 = with_unique(list, t);
        match acronym_expansion(t) {
            Some(e) => {
                lemma_with_unique(l1, e);
                lemma_extends_chain(list, l1, with_unique(l1, e));
                lemma_extends_keeps(l1, with_unique(l1, e), t);
            },
            None => {},
        }
    }
}

/// Adding several variations extends the list.
pub proof fn lemma_with_all(list: Seq<Seq<char>>, vars: Seq<Seq<char>>)
    requires
        list.no_duplicates(),
    ensures
        extends(list, with_all(list, vars)),
    decreases vars.len(),
{
    if vars.len() > 0 {
        lemma_with_all(list, vars.drop_last());
        if vars.last().len() > 0 {
            let before = with_all(list, vars.drop_last());
            lemma_with_variation(before, vars.last());
            lemma_extends_chain(list, before, with_variation(before, vars.last()));
        }
    }
}

/// Adding what a segment gives extends the list.
pub proof fn lemma_with_segment(list: Seq<Seq<char>>, segment: Seq<char>, min_len: int)
    requires
        list.no_duplicates(),
    ensures
        extends(list, with_segment(list, segment, min_len)),
{
    lemma_with_variation(list, normalized(trimmed(segment)));
}

/// Adding what several segments give extends the list.
pub proof fn lemma_with_segments(list: Seq<Seq<char>>, segments: Seq<Seq<char>>, min_len: int)
    requires
        list.no_duplicates(),
    ensures
        extends(list, with_segments(list, segments, min_len)),
    decreases segments.len(),
{
    if segments.len() > 0 {
        lemma_with_segments(list, segments.drop_last(), min_len);
        let before = with_segments(list, segments.drop_last(), min_len);
        lemma_with_segment(before, segments.last(), min_len);
        lemma_extends_chain(list, before, with_segment(before, segments.last(), min_len));
    }
}

/// Adding what the delimited segments of a name give extends the list.
pub proof fn lemma_with_delimited(list: Seq<Seq<char>>, name: Seq<char>, min_len: int)
    requires
        list.no_duplicates(),
    ensures
        extends(list, with_delimited(list, name, min_len)),
{
    lemma_with_segments(list, split_on(name, " - "@), min_len);
    let mid = with_segments(list, split_on(name, " - "@), min_len);
    lemma_with_segments(mid, split_on(name, " _ "@), min_len);
    lemma_extends_chain(list, mid, with_segments(mid, split_on(name, " _ "@), min_len));
}

/// Adding what a chapter name gives extends the list.
pub proof fn lemma_with_chapter_name(list: Seq<Seq<char>>, name: Seq<char>)
    requires
        list.no_duplicates(),
    ensures
        extends(list, with_chapter_name(list, name)),
{
    let norm = normalized(name);
    if norm.len() >= 3 {
        let meaningful = keywords(main_title(norm), 5);
        lemma_with_variation(list, meaningful);
        let mid = if meaningful.len() >= 4 {
            with_variation(list, meaningful)
        } else {
            list
        };
        lemma_with_delimited(mid, name, 3);
        lemma_extends_chain(list, mid, with_delimited(mid, name, 3));
    }
}

/// Adding what several chapter names give extends the list.
pub proof fn lemma_with_chapter_names(list: Seq<Seq<char>>, names: Seq<Seq<char>>)
    requires
        list.no_duplicates(),
    ensures
        extends(list, with_chapter_names(list, names)),
    decreases names.len(),
{
    if names.len() > 0 {
        lemma_with_chapter_names(list, names.drop_last());
        let before = with_chapter_names(list, names.drop_last());
        lemma_with_chapter_name(before, names.last());
        lemma_extends_chain(list, before, with_chapter_name(before, names.last()));
    }
}

/// Adding what a base name gives extends the list.
pub proof fn lemma_with_stem(list: Seq<Seq<char>>, stem: Seq<char>)
    requires
        list.no_duplicates(),
    ensures
        extends(list, with_stem(list, stem)),
{
    lemma_with_delimited(list, stem, 1);
    let mid = with_delimited(list, stem, 1);
    lemma_with_variation(mid, normalized(stem));
    lemma_extends_chain(list, mid, with_variation(mid, normalized(stem)));
}

/// Adding what several base names give extends the list.
pub proof fn lemma_with_stems(list: Seq<Seq<char>>, stems: Seq<Seq<char>>)
    requires
        list.no_duplicates(),
    ensures
        extends(list, with_stems(list, stems)),
    decreases stems.len(),
{
    if stems.len() > 0 {
        lemma_with_stems(list, stems.drop_last());
        let before = with_stems(list, stems.drop_last());
        lemma_with_stem(before, stems.last());
        lemma_extends_chain(list, before, with_stem(before, stems.last()));
    }
}

/// After the title the list begins with the trimmed normal form of the title,
/// if that is not empty, and holds its expansion if it is an acronym.
pub proof fn lemma_with_title(list: Seq<Seq<char>>, norm: Seq<char>)
    requires
        list.no_duplicates(),
    ensures
        extends(list, with_title(list, norm)),
        trimmed(norm).len() > 0 ==> with_title(list, norm).contains(trimmed(norm)),
        trimmed(norm).len() > 0 && list.len() == 0 ==> with_title(list, norm)[0] == trimmed(norm),
        trimmed(norm).len() > 0 ==> (acronym_expansion(trimmed(norm)) matches Some(e)
            ==> with_title(list, norm).contains(e)),
{
    if norm.len() > 0 {
        lemma_with_variation(list, norm);
        let l1 = with_variation(list, norm);
        let bare = without_leading_article(norm);
        lemma_with_variation(l1, bare);
        let l2 = if bare.len() > 0 && bare != norm {
            with_variation(l1, bare)
        } else {
            l1
        };
        let main = main_title(norm);
        lemma_with_variation(l2, main);
        let l3 = if main.len() > 0 && main != norm {
            with_variation(l2, main)
        } else {
            l2
        };
        let kw = keywords(norm, 5);
        lemma_with_variation(l3, kw);
        let l4 = with_title(list, norm);
        lemma_extends_chain(l1, l2, l3);
        lemma_extends_chain(l1, l3, l4);
        lemma_extends_chain(list, l1, l4);
        if trimmed(norm).len() > 0 {
            lemma_extends_keeps(l1, l4, trimmed(norm));
            match acronym_expansion(trimmed(norm)) {
                Some(e) => {
                    lemma_extends_keeps(l1, l4, e);
                },
                None => {},
            }
            if list.len() == 0 {
                assert(l4[0] == l1[0]);
            }
        }
    } else {
        crate::text::lemma_trailing_space_stops(norm);
        crate::text::lemma_leading_space_stops(norm.take(crate::text::without_trailing_space(norm)));
    }
}

/// Walks through the steps of `variations_of`.
pub proof fn lemma_variation_steps(
    title: Seq<char>,
    stem: Option<Seq<char>>,
    parent: Option<Seq<char>>,
    author: Option<Seq<char>>,
    chapter_names: Seq<Seq<char>>,
    chapter_stems: Seq<Seq<char>>,
)
    ensures
        extends(
            with_title(Seq::empty(), normalized(title)),
            variations_of(title, stem, parent, author, chapter_names, chapter_stems),
        ),
{
    let norm = normalized(title);
    let empty = Seq::<Seq<char>>::empty();
    lemma_with_title(empty, norm);
    let l1 = with_title(empty, norm);
    lemma_with_all(l1, path_variations(stem, parent));
    let l2 = with_all(l1, path_variations(stem, parent));
    lemma_with_chapter_names(l2, leading(chapter_names, MAX_CHAPTER_NAMES as int));
    let l3 = with_chapter_names(l2, leading(chapter_names, MAX_CHAPTER_NAMES as int));
    lemma_with_stems(l3, chapter_stems);
    let l4 = with_stems(l3, chapter_stems);
    let l5 = with_author(l4, norm, author);
    match author {
        Some(a) => {
            lemma_with_unique(l4, crate::variations::spaced(norm, normalized(a)));
        },
        None => {},
    }
    lemma_extends_chain(l1, l2, l3);
    lemma_extends_chain(l1, l3, l4);
    lemma_extends_chain(l1, l4, l5);
}

/// No list of search queries holds a query twice.
pub proof fn lemma_variations_are_distinct(
    title: Seq<char>,
    stem: Option<Seq<char>>,
    parent: Option<Seq<char>>,
    author: Option<Seq<char>>,
    chapter_names: Seq<Seq<char>>,
    chapter_stems: Seq<Seq<char>>,
)
    ensures
        variations_of(title, stem, parent, author, chapter_names, chapter_stems).no_duplicates(),
{
    lemma_variation_steps(title, stem, parent, author, chapter_names, chapter_stems);
}

/// A title that has a canonical form gives that form as the first query.
pub proof fn lemma_first_variation_is_title(
    title: Seq<char>,
    stem: Option<Seq<char>>,
    parent: Option<Seq<char>>,
    author: Option<Seq<char>>,
    chapter_names: Seq<Seq<char>>,
    chapter_stems: Seq<Seq<char>>,
)
    requires
        normalized(title).len() > 0,
    ensures
        variations_of(title, stem, parent, author, chapter_names, chapter_stems).len() > 0,
        variations_of(title, stem, parent, author, chapter_names, chapter_stems)[0] == normalized(
            title,
        ),
{
    lemma_normalized_is_trimmed(title);
    lemma_variation_steps(title, stem, parent, author, chapter_names, chapter_stems);
    lemma_with_title(Seq::empty(), normalized(title));
    let first = with_title(Seq::empty(), normalized(title));
    let k = choose|k: int| 0 <= k < first.len() && first[k] == normalized(title);
}

/// A title whose canonical form is a known acronym gives both the acronym
/// and what it stands for, whatever else is known of the book.
pub proof fn lemma_acronym_is_expanded(
    title: Seq<char>,
    stem: Option<Seq<char>>,
    parent: Option<Seq<char>>,
    author: Option<Seq<char>>,
    chapter_names: Seq<Seq<char>>,
    chapter_stems: Seq<Seq<char>>,
    expansion: Seq<char>,
)
    requires
        acronym_expansion(normalized(title)) == Some(expansion),
    ensures
        variations_of(title, stem, parent, author, chapter_names, chapter_stems).contains(
            normalized(title),
        ),
        variations_of(title, stem, parent, author, chapter_names, chapter_stems).contains(
            expansion,
        ),
{
    lemma_normalized_is_trimmed(title);
    lemma_acronyms_are_not_empty(normalized(title));
    lemma_variation_steps(title, stem, parent, author, chapter_names, chapter_stems);
    lemma_with_title(Seq::empty(), normalized(title));
    let first = with_title(Seq::empty(), normalized(title));
    let all = variations_of(title, stem, parent, author, chapter_names, chapter_stems);
    lemma_extends_keeps(first, all, normalized(title));
    lemma_extends_keeps(first, all, expansion);
}

/// The empty text is no acronym.
pub proof fn lemma_acronyms_are_not_empty(s: Seq<char>)
    requires
        acronym_expansion(s) is Some,
    ensures
        s.len() > 0,
{
    reveal_strlit("got");
    reveal_strlit("asoiaf");
    reveal_strlit("lotr");
    reveal_strlit("hp");
    reveal_strlit("twot");
    reveal_strlit("wot");
    reveal_strlit("tbate");
}

} // verus!
