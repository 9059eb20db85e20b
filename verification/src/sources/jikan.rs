//! Jikan, the catalogue of MyAnimeList, asked for manga.

use crate::candidate::{
    lemma_views_push, optional_text, views, CandidateView, MediaType, MetadataCandidate,
};
use crate::sources::loc::{optional_year, year_from_optional_date};
use crate::sources::mapping::{
    blank, concat, decimal, decimal_text, is_blank, percent_encoded, push_alternative,
    trimmed_string, url_encode, with_alternative,
};
use crate::sources::source_trait::MetadataSource;
use crate::text::{string_of, strings, trimmed};
use vstd::prelude::*;
use vstd::string::{StrSliceExecFns, StringSliceAdditionalSpecFns};

verus! {

/// Where Jikan is asked for anime.
pub const JIKAN_ANIME_URL: &'static str = "https://api.jikan.moe/v4/anime";

/// Where Jikan is asked for manga.
pub const JIKAN_MANGA_URL: &'static str = "https://api.jikan.moe/v4/manga";

/// How many seconds a request to Jikan may take.
pub const JIKAN_TIMEOUT_SECS: u64 = 8;

/// Where the images of an item are found.
#[derive(Debug)]
pub struct JikanImageUrls {
    pub image_url: Option<String>,
    pub large_image_url: Option<String>,
}

/// The images of an item by format.
#[derive(Debug)]
pub struct JikanImages {
    pub jpg: Option<JikanImageUrls>,
}

/// When an item was published.
#[derive(Debug)]
pub struct JikanDateRange {
    pub from: Option<String>,
}

/// One item in an answer of Jikan.
#[derive(Debug)]
pub struct JikanItem {
    pub mal_id: Option<i64>,
    pub title: Option<String>,
    pub title_english: Option<String>,
    pub title_japanese: Option<String>,
    pub synopsis: Option<String>,
    pub images: Option<JikanImages>,
    pub published: Option<JikanDateRange>,
}

/// An answer of Jikan.
#[derive(Debug)]
pub struct JikanResponse {
    pub data: Option<Vec<JikanItem>>,
}

/// The adapter for Jikan.
pub struct JikanSource;

/// The number of an item as text; empty if it has none.
pub open spec fn optional_number_text(id: Option<i64>) -> Seq<char> {
    match id {
        Some(n) => decimal_text(n as int),
        None => Seq::empty(),
    }
}

/// The large image if there is one, else the plain one.
pub open spec fn jikan_cover(images: Option<JikanImages>) -> Option<Seq<char>> {
    match images {
        Some(i) => match i.jpg {
            Some(j) => match j.large_image_url {
                Some(u) => Some(u@),
                None => optional_text(j.image_url),
            },
            None => None,
        },
        None => None,
    }
}

/// The date on which publication began.
pub open spec fn jikan_published_from(published: Option<JikanDateRange>) -> Option<String> {
    match published {
        Some(p) => p.from,
        None => None,
    }
}

/// A text as it is, unless it is missing or blank.
pub open spec fn unless_blank(s: Option<String>) -> Option<Seq<char>> {
    match s {
        Some(t) => if is_blank(t@) {
            None
        } else {
            Some(t@)
        },
        None => None,
    }
}

/// The candidate that an item gives for the given kind of work; none if the
/// item has no title or a blank one.
pub open spec fn jikan_candidate(item: JikanItem, media_type: MediaType) -> Option<CandidateView> {
    match item.title {
        Some(t) => if trimmed(t@).len() > 0 {
            Some(
                CandidateView {
                    source: "jikan"@,
                    source_id: optional_number_text(item.mal_id),
                    media_type,
                    title: trimmed(t@),
                    title_alternatives: with_alternative(
                        with_alternative(seq![trimmed(t@)], optional_text(item.title_english)),
                        optional_text(item.title_japanese),
                    ),
                    author: None,
                    description: unless_blank(item.synopsis),
                    cover_url: jikan_cover(item.images),
                    year: optional_year(jikan_published_from(item.published)),
                    language: None,
                },
            )
        } else {
            None
        },
        None => None,
    }
}

/// The candidates that the items give, in their order.
pub open spec fn jikan_candidates(items: Seq<JikanItem>, media_type: MediaType) -> Seq<
    CandidateView,
>
    decreases items.len(),
{
    if items.len() == 0 {
        Seq::empty()
    } else {
        match jikan_candidate(items.last(), media_type) {
            Some(c) => jikan_candidates(items.drop_last(), media_type).push(c),
            None => jikan_candidates(items.drop_last(), media_type),
        }
    }
}

/// The candidates of an answer. No answer, or one without items, gives none.
pub open spec fn jikan_answer(response: Option<JikanResponse>, media_type: MediaType) -> Seq<
    CandidateView,
> {
    match response {
        Some(r) => match r.data {
            Some(items) => jikan_candidates(items@, media_type),
            None => Seq::empty(),
        },
        None => Seq::empty(),
    }
}

/// A number as text; empty if there is none.
pub fn number_text(id: Option<i64>) -> (r: String)
    ensures
        r@ == optional_number_text(id),
{
    match id {
        Some(n) => string_of(&decimal(n)),
        None => String::new(),
    }
}

/// A text as it is, unless it is missing or blank.
pub fn keep_unless_blank(s: Option<String>) -> (r: Option<String>)
    ensures
        optional_text(r) == unless_blank(s),
{
    match s {
        Some(t) => if blank(t.as_str()) {
            None
        } else {
            Some(t)
        },
        None => None,
    }
}

/// Where Jikan is asked for `query` at the address `base`: five items.
pub open spec fn jikan_endpoint(base: Seq<char>, query: Seq<u8>) -> Seq<char> {
    base + "?q="@ + percent_encoded(query) + "&limit=5"@
}

impl JikanSource {
    /// Turns one item into a candidate.
    pub fn candidate(item: JikanItem, media_type: MediaType) -> (c: Option<MetadataCandidate>)
        ensures
            match c {
                Some(c) => jikan_candidate(item, media_type) == Some(c@),
                None => jikan_candidate(item, media_type) is None,
            },
    {
        let title = match &item.title {
            Some(t) => trimmed_string(t.as_str()),
            None => {
                return None;
            },
        };
        if title.as_str().unicode_len() == 0 {
            return None;
        }
        let mut alternatives: Vec<String> = Vec::new();
        alternatives.push(title.clone());
        proof {
            assert(strings(alternatives@) =~= seq![title@]);
        }
        push_alternative(&mut alternatives, &item.title_english);
        push_alternative(&mut alternatives, &item.title_japanese);
        let cover_url = match item.images {
            Some(i) => match i.jpg {
                Some(j) => match j.large_image_url {
                    Some(u) => Some(u),
                    None => j.image_url,
                },
                None => None,
            },
            None => None,
        };
        let from = match item.published {
            Some(p) => p.from,
            None => None,
        };
        let year = year_from_optional_date(&from);
        Some(
            MetadataCandidate {
                source: "jikan".to_owned(),
                source_id: number_text(item.mal_id),
                media_type,
                title,
                title_alternatives: alternatives,
                author: None,
                description: keep_unless_blank(item.synopsis),
                cover_url,
                year,
                language: None,
            },
        )
    }

    /// Turns an answer into candidates of the given kind. An answer that
    /// never came, or that could not be read, is `None` and gives no
    /// candidate.
    pub fn candidates(response: Option<JikanResponse>, media_type: MediaType) -> (out: Vec<
        MetadataCandidate,
    >)
        ensures
            views(out@) == jikan_answer(response, media_type),
    {
        let mut out: Vec<MetadataCandidate> = Vec::new();
        proof {
            assert(views(out@) =~= Seq::<CandidateView>::empty());
        }
        let items = match response {
            Some(r) => match r.data {
                Some(items) => items,
                None => {
                    return out;
                },
            },
            None => {
                return out;
            },
        };
        let ghost all = items@;
        for item in it: items
            invariant
                it.seq() == all,
                views(out@) == jikan_candidates(all.take(it.index()), media_type),
        {
            proof {
                assert(all.take(it.index() + 1).drop_last() =~= all.take(it.index()));
                assert(all.take(it.index() + 1).last() == item);
            }
            match JikanSource::candidate(item, media_type) {
                Some(c) => {
                    proof {
                        lemma_views_push(out@, c);
                    }
                    out.push(c);
                },
                None => {},
            }
        }
        proof {
            assert(all.take(all.len() as int) =~= all);
        }
        out
    }

    /// Where `query` is sent when the address of the catalogue is `base`.
    pub fn search_endpoint(query: &str, base: &str) -> (url: String)
        ensures
            url@ == jikan_endpoint(base@, query.spec_bytes()),
    {
        let front = concat(base, "?q=");
        let encoded = url_encode(query);
        let asked = concat(front.as_str(), encoded.as_str());
        concat(asked.as_str(), "&limit=5")
    }
}

impl MetadataSource for JikanSource {
    fn name(&self) -> (n: &'static str)
        ensures
            n@ == "jikan"@,
    {
        "jikan"
    }

    fn media_type(&self) -> (m: MediaType)
        ensures
            m == MediaType::Manga,
    {
        MediaType::Manga
    }

    fn timeout_secs(&self) -> (t: u64)
        ensures
            t == JIKAN_TIMEOUT_SECS,
    {
        JIKAN_TIMEOUT_SECS
    }

    fn endpoint(&self, query: &str) -> (url: String)
        ensures
            url@ == jikan_endpoint(JIKAN_MANGA_URL@, query.spec_bytes()),
    {
        JikanSource::search_endpoint(query, JIKAN_MANGA_URL)
    }
}

} // verus!
