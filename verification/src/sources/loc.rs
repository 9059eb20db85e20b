//! The Library of Congress, a catalogue of books.

use crate::candidate::{lemma_views_push, views, CandidateView, MediaType, MetadataCandidate};
use crate::sources::mapping::{
    concat, percent_encoded, trimmed_string, url_encode, year_from_date, year_of,
};
use crate::sources::source_trait::MetadataSource;
use crate::text::{strings, trimmed};
use vstd::prelude::*;
use vstd::string::{StrSliceExecFns, StringSliceAdditionalSpecFns};

verus! {

/// Where the Library of Congress is asked for books.
pub const LOC_URL: &'static str = "https://www.loc.gov/books/";

/// How many seconds a request to the Library of Congress may take.
pub const LOC_TIMEOUT_SECS: u64 = 8;

/// One item in an answer of the Library of Congress.
#[derive(Debug)]
pub struct LocItem {
    pub id: Option<String>,
    pub title: Option<String>,
    /// The item's date as the catalogue writes it.
    pub date_str: Option<String>,
}

/// An answer of the Library of Congress.
#[derive(Debug)]
pub struct LocResponse {
    pub results: Option<Vec<LocItem>>,
}

/// The adapter for the Library of Congress.
pub struct LocSource;

/// The year that an optional date begins with, as a 32-bit number.
pub open spec fn optional_year(date: Option<String>) -> Option<i32> {
    match date {
        Some(d) => match year_of(d@) {
            Some(y) => Some(y as i32),
            None => None,
        },
        None => None,
    }
}

/// The candidate that an item gives; none if it has no title or a blank one.
pub open spec fn loc_candidate(item: LocItem) -> Option<CandidateView> {
    match item.title {
        Some(t) => if trimmed(t@).len() > 0 {
            Some(
                CandidateView {
                    source: "loc"@,
                    source_id: match item.id {
                        Some(id) => id@,
                        None => Seq::empty(),
                    },
                    media_type: MediaType::Book,
                    title: trimmed(t@),
                    title_alternatives: seq![trimmed(t@)],
                    author: None,
                    description: None,
                    cover_url: None,
                    year: optional_year(item.date_str),
                    language: None,
                },
            )
        } else {
            None
        },
        None => None,
    }
}

/// The candidates that the items give, in their order.
pub open spec fn loc_candidates(items: Seq<LocItem>) -> Seq<CandidateView>
    decreases items.len(),
{
    if items.len() == 0 {
        Seq::empty()
    } else {
        match loc_candidate(items.last()) {
            Some(c) => loc_candidates(items.drop_last()).push(c),
            None => loc_candidates(items.drop_last()),
        }
    }
}

/// The candidates of an answer. No answer, or one without items, gives none.
pub open spec fn loc_answer(response: Option<LocResponse>) -> Seq<CandidateView> {
    match response {
        Some(r) => match r.results {
            Some(items) => loc_candidates(items@),
            None => Seq::empty(),
        },
        None => Seq::empty(),
    }
}

/// Reads the year that an optional date begins with.
pub fn year_from_optional_date(date: &Option<String>) -> (year: Option<i32>)
    ensures
        year == optional_year(*date),
{
    match date {
        Some(d) => year_from_date(d.as_str()),
        None => None,
    }
}

impl LocSource {
    /// Turns one item into a candidate.
    pub fn candidate(item: LocItem) -> (c: Option<MetadataCandidate>)
        ensures
            match c {
                Some(c) => loc_candidate(item) == Some(c@),
                None => loc_candidate(item) is None,
            },
    {
        let title = match &item.title {
            Some(t) => trimmed_string(t.as_str()),
            None => {
                return None;
            },
        };
        if title.as_str().unicode_len() == 0 {
            return None;
        }
        let year = year_from_optional_date(&item.date_str);
        let source_id = match item.id {
            Some(id) => id,
            None => String::new(),
        };
        let mut alternatives: Vec<String> = Vec::new();
        alternatives.push(title.clone());
        proof {
            assert(strings(alternatives@) =~= seq![title@]);
        }
        Some(
            MetadataCandidate {
                source: "loc".to_owned(),
                source_id,
                media_type: MediaType::Book,
                title,
                title_alternatives: alternatives,
                author: None,
                description: None,
                cover_url: None,
                year,
                language: None,
            },
        )
    }

    /// Turns an answer into candidates. An answer that never came, or that
    /// could not be read, is `None` and gives no candidate.
    pub fn candidates(response: Option<LocResponse>) -> (out: Vec<MetadataCandidate>)
        ensures
            views(out@) == loc_answer(response),
    {
        let mut out: Vec<MetadataCandidate> = Vec::new();
        proof {
            assert(views(out@) =~= Seq::<CandidateView>::empty());
        }
        let items = match response {
            Some(r) => match r.results {
                Some(items) => items,
                None => {
                    return out;
                },
            },
            None => {
                return out;
            },
        };
        let ghost all = items@;
        for item in it: items
            invariant
                it.seq() == all,
                views(out@) == loc_candidates(all.take(it.index())),
        {
            proof {
                assert(all.take(it.index() + 1).drop_last() =~= all.take(it.index()));
                assert(all.take(it.index() + 1).last() == item);
            }
            match LocSource::candidate(item) {
                Some(c) => {
                    proof {
                        lemma_views_push(out@, c);
                    }
                    out.push(c);
                },
                None => {},
            }
        }
        proof {
            assert(all.take(all.len() as int) =~= all);
        }
        out
    }
}

/// Where the Library of Congress is asked for `query`: as JSON, ten items.
pub open spec fn loc_endpoint(query: Seq<u8>) -> Seq<char> {
    LOC_URL@ + "?q="@ + percent_encoded(query) + "&fo=json&c=10"@
}

impl MetadataSource for LocSource {
    fn name(&self) -> (n: &'static str)
        ensures
            n@ == "loc"@,
    {
        "loc"
    }

    fn media_type(&self) -> (m: MediaType)
        ensures
            m == MediaType::Book,
    {
        MediaType::Book
    }

    fn timeout_secs(&self) -> (t: u64)
        ensures
            t == LOC_TIMEOUT_SECS,
    {
        LOC_TIMEOUT_SECS
    }

    fn endpoint(&self, query: &str) -> (url: String)
        ensures
            url@ == loc_endpoint(query.spec_bytes()),
    {
        let front = concat(LOC_URL, "?q=");
        let encoded = url_encode(query);
        let asked = concat(front.as_str(), encoded.as_str());
        concat(asked.as_str(), "&fo=json&c=10")
    }
}

} // verus!
