//! Kitsu, a catalogue of anime.

use crate::candidate::{
    lemma_views_push, optional_text, views, CandidateView, MediaType, MetadataCandidate,
};
use crate::sources::jikan::{keep_unless_blank, unless_blank};
use crate::sources::loc::{optional_year, year_from_optional_date};
use crate::sources::mapping::{
    concat, percent_encoded, push_alternative, trimmed_string, url_encode, with_alternative,
};
use crate::sources::source_trait::MetadataSource;
use crate::text::{strings, trimmed};
use vstd::prelude::*;
use vstd::string::{StrSliceExecFns, StringSliceAdditionalSpecFns};

verus! {

/// Where Kitsu is asked for anime.
pub const KITSU_URL: &'static str = "https://kitsu.io/api/edge/anime";

/// How many seconds a request to Kitsu may take.
pub const KITSU_TIMEOUT_SECS: u64 = 8;

/// Where the poster of a show is found.
#[derive(Debug)]
pub struct KitsuPosterImage {
    pub original: Option<String>,
    pub large: Option<String>,
}

/// What Kitsu says of one show.
#[derive(Debug)]
pub struct KitsuAttributes {
    pub canonical_title: Option<String>,
    /// The titles by language, as far as they are texts, in the order in
    /// which the answer lists them.
    pub titles: Vec<String>,
    pub synopsis: Option<String>,
    pub poster_image: Option<KitsuPosterImage>,
    pub start_date: Option<String>,
}

/// One item in an answer of Kitsu.
#[derive(Debug)]
pub struct KitsuItem {
    pub id: Option<String>,
    pub attrs: Option<KitsuAttributes>,
}

/// An answer of Kitsu.
#[derive(Debug)]
pub struct KitsuResponse {
    pub data: Option<Vec<KitsuItem>>,
}

/// The adapter for Kitsu.
pub struct KitsuSource;

/// `alts` with each of `titles` added as an alternative, in order.
pub open spec fn with_alternatives(alts: Seq<Seq<char>>, titles: Seq<Seq<char>>) -> Seq<Seq<char>>
    decreases titles.len(),
{
    if titles.len() == 0 {
        alts
    } else {
        with_alternative(with_alternatives(alts, titles.drop_last()), Some(titles.last()))
    }
}

/// The original poster if there is one, else the large one.
pub open spec fn kitsu_cover(poster: Option<KitsuPosterImage>) -> Option<Seq<char>> {
    match poster {
        Some(p) => match p.original {
            Some(u) => Some(u@),
            None => optional_text(p.large),
        },
        None => None,
    }
}

/// The candidate that an item gives; none if it has no attributes, no
/// canonical title or a blank one.
pub open spec fn kitsu_candidate(item: KitsuItem) -> Option<CandidateView> {
    match item.attrs {
        Some(a) => match a.canonical_title {
            Some(t) => if trimmed(t@).len() > 0 {
                Some(
                    CandidateView {
                        source: "kitsu"@,
                        source_id: match item.id {
                            Some(id) => id@,
                            None => Seq::empty(),
                        },
                        media_type: MediaType::Anime,
                        title: trimmed(t@),
                        title_alternatives: with_alternatives(
                            seq![trimmed(t@)],
                            strings(a.titles@),
                        ),
                        author: None,
                        description: unless_blank(a.synopsis),
                        cover_url: kitsu_cover(a.poster_image),
                        year: optional_year(a.start_date),
                        language: None,
                    },
                )
            } else {
                None
            },
            None => None,
        },
        None => None,
    }
}

/// The candidates that the items give, in their order.
pub open spec fn kitsu_candidates(items: Seq<KitsuItem>) -> Seq<CandidateView>
    decreases items.len(),
{
    if items.len() == 0 {
        Seq::empty()
    } else {
        match kitsu_candidate(items.last()) {
            Some(c) => kitsu_candidates(items.drop_last()).push(c),
            None => kitsu_candidates(items.drop_last()),
        }
    }
}

/// The candidates of an answer. No answer, or one without items, gives none.
pub open spec fn kitsu_answer(response: Option<KitsuResponse>) -> Seq<CandidateView> {
    match response {
        Some(r) => match r.data {
            Some(items) => kitsu_candidates(items@),
            None => Seq::empty(),
        },
        None => Seq::empty(),
    }
}

/// Where Kitsu is asked for `query`.
pub open spec fn kitsu_endpoint(query: Seq<u8>) -> Seq<char> {
    KITSU_URL@ + "?filter[text]="@ + percent_encoded(query)
}

impl KitsuSource {
    /// Turns one item into a candidate.
    pub fn candidate(item: KitsuItem) -> (c: Option<MetadataCandidate>)
        ensures
            match c {
                Some(c) => kitsu_candidate(item) == Some(c@),
                None => kitsu_candidate(item) is None,
            },
    {
        let attrs = match item.attrs {
            Some(a) => a,
            None => {
                return None;
            },
        };
        let title = match &attrs.canonical_title {
            Some(t) => trimmed_string(t.as_str()),
            None => {
                return None;
            },
        };
        if title.as_str().unicode_len() == 0 {
            return None;
        }
        let mut alternatives: Vec<String> = Vec::new();
        alternatives.push(title.clone());
        proof {
            assert(strings(alternatives@) =~= seq![title@]);
        }
        let ghost first = strings(alternatives@);
        let ghost titles = strings(attrs.titles@);
        let mut i: usize = 0;
        while i < attrs.titles.len()
            invariant
                i <= attrs.titles.len(),
                titles == strings(attrs.titles@),
                strings(alternatives@) == with_alternatives(first, titles.take(i as int)),
            decreases attrs.titles.len() - i,
        {
            proof {
                assert(titles.take(i as int + 1).drop_last() =~= titles.take(i as int));
                assert(titles.take(i as int + 1).last() == attrs.titles@[i as int]@);
            }
            let one = Some(attrs.titles[i].clone());
            push_alternative(&mut alternatives, &one);
            i += 1;
        }
        proof {
            assert(titles.take(titles.len() as int) =~= titles);
        }
        let cover_url = match attrs.poster_image {
            Some(p) => match p.original {
                Some(u) => Some(u),
                None => p.large,
            },
            None => None,
        };
        let year = year_from_optional_date(&attrs.start_date);
        let source_id = match item.id {
            Some(id) => id,
            None => String::new(),
        };
        Some(
            MetadataCandidate {
                source: "kitsu".to_owned(),
                source_id,
                media_type: MediaType::Anime,
                title,
                title_alternatives: alternatives,
                author: None,
                description: keep_unless_blank(attrs.synopsis),
                cover_url,
                year,
                language: None,
            },
        )
    }

    /// Turns an answer into candidates. An answer that never came, or that
    /// could not be read, is `None` and gives no candidate.
    pub fn candidates(response: Option<KitsuResponse>) -> (out: Vec<MetadataCandidate>)
        ensures
            views(out@) == kitsu_answer(response),
    {
        let mut out: Vec<MetadataCandidate> = Vec::new();
        proof {
            assert(views(out@) =~= Seq::<CandidateView>::empty());
        }
        let items = match response {
            Some(r) => match r.data {
                Some(items) => items,
                None => {
                    return out;
                },
            },
            None => {
                return out;
            },
        };
        let ghost all = items@;
        for item in it: items
            invariant
                it.seq() == all,
                views(out@) == kitsu_candidates(all.take(it.index())),
        {
            proof {
                assert(all.take(it.index() + 1).drop_last() =~= all.take(it.index()));
                assert(all.take(it.index() + 1).last() == item);
            }
            match KitsuSource::candidate(item) {
                Some(c) => {
                    proof {
                        lemma_views_push(out@, c);
                    }
                    out.push(c);
                },
                None => {},
            }
        }
        proof {
            assert(all.take(all.len() as int) =~= all);
        }
        out
    }
}

impl MetadataSource for KitsuSource {
    fn name(&self) -> (n: &'static str)
        ensures
            n@ == "kitsu"@,
    {
        "kitsu"
    }

    fn media_type(&self) -> (m: MediaType)
        ensures
            m == MediaType::Anime,
    {
        MediaType::Anime
    }

    fn timeout_secs(&self) -> (t: u64)
        ensures
            t == KITSU_TIMEOUT_SECS,
    {
        KITSU_TIMEOUT_SECS
    }

    fn endpoint(&self, query: &str) -> (url: String)
        ensures
            url@ == kitsu_endpoint(query.spec_bytes()),
    {
        let front = concat(KITSU_URL, "?filter[text]=");
        let encoded = url_encode(query);
        concat(front.as_str(), encoded.as_str())
    }
}

} // verus!
