//! AniList, a catalogue of anime and manga, asked for manga.

use crate::candidate::{
    lemma_views_push, optional_text, views, CandidateView, MediaType, MetadataCandidate,
};
use crate::sources::jikan::{number_text, optional_number_text};
use crate::sources::mapping::{
    push_alternative, strip_html, trimmed_string, with_alternative, without_html,
};
use crate::sources::source_trait::MetadataSource;
use crate::text::{strings, trimmed};
use vstd::prelude::*;
use vstd::string::StrSliceExecFns;

verus! {

/// Where AniList takes GraphQL requests.
pub const ANILIST_URL: &'static str = "https://graphql.anilist.co";

/// How many seconds a request to AniList may take.
pub const ANILIST_TIMEOUT_SECS: u64 = 8;

/// The GraphQL document that asks for ten manga matching `$search`.
pub const ANILIST_MANGA_QUERY: &'static str =
    "query ($search: String!) { Page(perPage: 10) { media(search: $search, type: MANGA) { id title { romaji english native } coverImage { large } description startDate { year } studios(isMain: true) { nodes { name } } } } }";

/// The titles of a work in three spellings.
#[derive(Debug)]
pub struct AniListTitle {
    pub romaji: Option<String>,
    pub english: Option<String>,
    pub native: Option<String>,
}

/// Where the cover of a work is found.
#[derive(Debug)]
pub struct AniListCoverImage {
    pub large: Option<String>,
}

/// A date of which only the year is read.
#[derive(Debug)]
pub struct AniListFuzzyDate {
    pub year: Option<i32>,
}

/// One studio of a work.
#[derive(Debug)]
pub struct AniListStudio {
    pub name: Option<String>,
}

/// The main studios of a work.
#[derive(Debug)]
pub struct AniListStudios {
    pub nodes: Option<Vec<AniListStudio>>,
}

/// One work in an answer of AniList.
#[derive(Debug)]
pub struct AniListMedia {
    pub id: Option<i64>,
    pub title: Option<AniListTitle>,
    pub cover_image: Option<AniListCoverImage>,
    pub description: Option<String>,
    pub start_date: Option<AniListFuzzyDate>,
    pub studios: Option<AniListStudios>,
}

/// One page of works.
#[derive(Debug)]
pub struct AniListPage {
    pub media: Option<Vec<AniListMedia>>,
}

/// The payload of an answer.
#[derive(Debug)]
pub struct AniListData {
    pub page: Option<AniListPage>,
}

/// An answer of AniList.
#[derive(Debug)]
pub struct AniListResponse {
    pub data: Option<AniListData>,
}

/// The adapter for AniList.
pub struct AniListSource;

/// The first spelling that is there: romaji, else English, else native.
pub open spec fn anilist_first_title(t: AniListTitle) -> Option<Seq<char>> {
    match t.romaji {
        Some(r) => Some(r@),
        None => match t.english {
            Some(e) => Some(e@),
            None => optional_text(t.native),
        },
    }
}

/// The spellings that are there and not blank, each once, trimmed.
pub open spec fn anilist_alternatives(t: AniListTitle) -> Seq<Seq<char>> {
    with_alternative(
        with_alternative(
            with_alternative(Seq::empty(), optional_text(t.romaji)),
            optional_text(t.english),
        ),
        optional_text(t.native),
    )
}

/// The name of the first studio.
pub open spec fn anilist_author(studios: Option<AniListStudios>) -> Option<Seq<char>> {
    match studios {
        Some(s) => match s.nodes {
            Some(nodes) => if nodes@.len() > 0 {
                optional_text(nodes@[0].name)
            } else {
                None
            },
            None => None,
        },
        None => None,
    }
}

/// The description without markup; none if nothing is left of it.
pub open spec fn anilist_description(description: Option<String>) -> Option<Seq<char>> {
    match description {
        Some(d) => if without_html(d@).len() > 0 {
            Some(without_html(d@))
        } else {
            None
        },
        None => None,
    }
}

/// The large cover, if there is one.
pub open spec fn anilist_cover(cover: Option<AniListCoverImage>) -> Option<Seq<char>> {
    match cover {
        Some(c) => optional_text(c.large),
        None => None,
    }
}

/// The year in which the work began, if it is known.
pub open spec fn anilist_year(date: Option<AniListFuzzyDate>) -> Option<i32> {
    match date {
        Some(d) => d.year,
        None => None,
    }
}

/// The candidate that a work gives for the given kind; none if it has no
/// title, or if the first spelling that is there is blank.
pub open spec fn anilist_candidate(m: AniListMedia, media_type: MediaType) -> Option<
    CandidateView,
> {
    match m.title {
        Some(t) => match anilist_first_title(t) {
            Some(first) => if trimmed(first).len() > 0 {
                Some(
                    CandidateView {
                        source: "anilist"@,
                        source_id: optional_number_text(m.id),
                        media_type,
                        title: trimmed(first),
                        title_alternatives: if anilist_alternatives(t).len() == 0 {
                            seq![trimmed(first)]
                        } else {
                            anilist_alternatives(t)
                        },
                        author: anilist_author(m.studios),
                        description: anilist_description(m.description),
                        cover_url: anilist_cover(m.cover_image),
                        year: anilist_year(m.start_date),
                        language: None,
                    },
                )
            } else {
                None
            },
            None => None,
        },
        None => None,
    }
}

/// The candidates that the works give, in their order.
pub open spec fn anilist_candidates(media: Seq<AniListMedia>, media_type: MediaType) -> Seq<
    CandidateView,
>
    decreases media.len(),
{
    if media.len() == 0 {
        Seq::empty()
    } else {
        match anilist_candidate(media.last(), media_type) {
            Some(c) => anilist_candidates(media.drop_last(), media_type).push(c),
            None => anilist_candidates(media.drop_last(), media_type),
        }
    }
}

/// The candidates of an answer. No answer, or one without a page of works,
/// gives none.
pub open spec fn anilist_answer(response: Option<AniListResponse>, media_type: MediaType) -> Seq<
    CandidateView,
> {
    match response {
        Some(r) => match r.data {
            Some(d) => match d.page {
                Some(p) => match p.media {
                    Some(media) => anilist_candidates(media@, media_type),
                    None => Seq::empty(),
                },
                None => Seq::empty(),
            },
            None => Seq::empty(),
        },
        None => Seq::empty(),
    }
}

impl AniListSource {
    /// Turns one work into a candidate.
    pub fn candidate(m: AniListMedia, media_type: MediaType) -> (c: Option<MetadataCandidate>)
        ensures
            match c {
                Some(c) => anilist_candidate(m, media_type) == Some(c@),
                None => anilist_candidate(m, media_type) is None,
            },
    {
        let titles = match &m.title {
            Some(t) => t,
            None => {
                return None;
            },
        };
        let first = match &titles.romaji {
            Some(r) => trimmed_string(r.as_str()),
            None => match &titles.english {
                Some(e) => trimmed_string(e.as_str()),
                None => match &titles.native {
                    Some(n) => trimmed_string(n.as_str()),
                    None => {
                        return None;
                    },
                },
            },
        };
        if first.as_str().unicode_len() == 0 {
            return None;
        }
        let mut alternatives: Vec<String> = Vec::new();
        proof {
            assert(strings(alternatives@) =~= Seq::<Seq<char>>::empty());
        }
        push_alternative(&mut alternatives, &titles.romaji);
        push_alternative(&mut alternatives, &titles.english);
        push_alternative(&mut alternatives, &titles.native);
        if alternatives.len() == 0 {
            alternatives.push(first.clone());
            proof {
                assert(strings(alternatives@) =~= seq![first@]);
            }
        }
        let author = match &m.studios {
            Some(s) => match &s.nodes {
                Some(nodes) => if nodes.len() > 0 {
                    crate::candidate::copy_optional(&nodes[0].name)
                } else {
                    None
                },
                None => None,
            },
            None => None,
        };
        let description = match &m.description {
            Some(d) => {
                let plain = strip_html(d.as_str());
                if plain.as_str().unicode_len() > 0 {
                    Some(plain)
                } else {
                    None
                }
            },
            None => None,
        };
        let cover_url = match &m.cover_image {
            Some(c) => crate::candidate::copy_optional(&c.large),
            None => None,
        };
        let year = match &m.start_date {
            Some(d) => d.year,
            None => None,
        };
        Some(
            MetadataCandidate {
                source: "anilist".to_owned(),
                source_id: number_text(m.id),
                media_type,
                title: first,
                title_alternatives: alternatives,
                author,
                description,
                cover_url,
                year,
                language: None,
            },
        )
    }

    /// Turns an answer into candidates of the given kind. An answer that
    /// never came, or that could not be read, is `None` and gives no
    /// candidate.
    pub fn candidates(response: Option<AniListResponse>, media_type: MediaType) -> (out: Vec<
        MetadataCandidate,
    >)
        ensures
            views(out@) == anilist_answer(response, media_type),
    {
        let mut out: Vec<MetadataCandidate> = Vec::new();
        proof {
            assert(views(out@) =~= Seq::<CandidateView>::empty());
        }
        let media = match response {
            Some(r) => match r.data {
                Some(d) => match d.page {
                    Some(p) => match p.media {
                        Some(media) => media,
                        None => {
                            return out;
                        },
                    },
                    None => {
                        return out;
                    },
                },
                None => {
                    return out;
                },
            },
            None => {
                return out;
            },
        };
        let ghost all = media@;
        for m in it: media
            invariant
                it.seq() == all,
                views(out@) == anilist_candidates(all.take(it.index()), media_type),
        {
            proof {
                assert(all.take(it.index() + 1).drop_last() =~= all.take(it.index()));
                assert(all.take(it.index() + 1).last() == m);
            }
            match AniListSource::candidate(m, media_type) {
                Some(c) => {
                    proof {
                        lemma_views_push(out@, c);
                    }
                    out.push(c);
                },
                None => {},
            }
        }
        proof {
            assert(all.take(all.len() as int) =~= all);
        }
        out
    }
}

impl MetadataSource for AniListSource {
    fn name(&self) -> (n: &'static str)
        ensures
            n@ == "anilist"@,
    {
        "anilist"
    }

    fn media_type(&self) -> (m: MediaType)
        ensures
            m == MediaType::Manga,
    {
        MediaType::Manga
    }

    fn timeout_secs(&self) -> (t: u64)
        ensures
            t == ANILIST_TIMEOUT_SECS,
    {
        ANILIST_TIMEOUT_SECS
    }

    /// Every query goes to the one address; the query itself travels in the
    /// body of the request.
    fn endpoint(&self, query: &str) -> (url: String)
        ensures
            url@ == ANILIST_URL@,
    {
        ANILIST_URL.to_owned()
    }
}

} // verus!
