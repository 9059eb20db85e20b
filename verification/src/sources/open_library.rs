//! Open Library, a catalogue of books.

use crate::candidate::{lemma_views_push, views, CandidateView, MediaType, MetadataCandidate};
use crate::sources::mapping::{
    concat, decimal, decimal_text, join_strings, percent_encoded, trim_start_matches,
    trimmed_string, url_encode, without_leading,
};
use crate::sources::source_trait::MetadataSource;
use crate::text::{join_with, string_of, strings, trimmed};
use vstd::prelude::*;
use vstd::string::{StrSliceExecFns, StringSliceAdditionalSpecFns};

verus! {

/// Where Open Library is asked for works.
pub const OPEN_LIBRARY_URL: &'static str = "https://openlibrary.org/search.json";

/// How many seconds a request to Open Library may take.
pub const OPEN_LIBRARY_TIMEOUT_SECS: u64 = 8;

/// One work in an answer of Open Library.
#[derive(Debug)]
pub struct OpenLibraryDoc {
    pub title: Option<String>,
    pub author_name: Option<Vec<String>>,
    pub first_publish_year: Option<i32>,
    /// Number of the cover image.
    pub cover_i: Option<i64>,
    /// Path of the work, such as `/works/OL27448W`.
    pub key: Option<String>,
}

/// An answer of Open Library.
#[derive(Debug)]
pub struct OpenLibraryResponse {
    pub docs: Option<Vec<OpenLibraryDoc>>,
}

/// The adapter for Open Library.
pub struct OpenLibrarySource;

/// Where the large cover with the given number is found.
pub open spec fn open_library_cover(id: int) -> Seq<char> {
    "https://covers.openlibrary.org/b/id/"@ + decimal_text(id) + "-L.jpg"@
}

/// The authors of a work, separated by commas; none if the list is missing or
/// empty.
pub open spec fn open_library_author(names: Option<Vec<String>>) -> Option<Seq<char>> {
    match names {
        Some(a) => if a@.len() > 0 {
            Some(join_with(strings(a@), ", "@))
        } else {
            None
        },
        None => None,
    }
}

/// The candidate that a work gives; none if it has no title or a blank one.
pub open spec fn open_library_candidate(d: OpenLibraryDoc) -> Option<CandidateView> {
    match d.title {
        Some(t) => if trimmed(t@).len() > 0 {
            Some(
                CandidateView {
                    source: "open_library"@,
                    source_id: without_leading(
                        match d.key {
                            Some(k) => k@,
                            None => Seq::empty(),
                        },
                        "/works/"@,
                    ),
                    media_type: MediaType::Book,
                    title: trimmed(t@),
                    title_alternatives: seq![trimmed(t@)],
                    author: open_library_author(d.author_name),
                    description: None,
                    cover_url: match d.cover_i {
                        Some(id) => Some(open_library_cover(id as int)),
                        None => None,
                    },
                    year: d.first_publish_year,
                    language: None,
                },
            )
        } else {
            None
        },
        None => None,
    }
}

/// The candidates that the works give, in their order.
pub open spec fn open_library_candidates(docs: Seq<OpenLibraryDoc>) -> Seq<CandidateView>
    decreases docs.len(),
{
    if docs.len() == 0 {
        Seq::empty()
    } else {
        match open_library_candidate(docs.last()) {
            Some(c) => open_library_candidates(docs.drop_last()).push(c),
            None => open_library_candidates(docs.drop_last()),
        }
    }
}

/// The candidates of an answer. No answer, or one without works, gives none.
pub open spec fn open_library_answer(response: Option<OpenLibraryResponse>) -> Seq<CandidateView> {
    match response {
        Some(r) => match r.docs {
            Some(docs) => open_library_candidates(docs@),
            None => Seq::empty(),
        },
        None => Seq::empty(),
    }
}

impl OpenLibrarySource {
    /// Turns one work into a candidate.
    pub fn candidate(d: OpenLibraryDoc) -> (c: Option<MetadataCandidate>)
        ensures
            match c {
                Some(c) => open_library_candidate(d) == Some(c@),
                None => open_library_candidate(d) is None,
            },
    {
        let title = match &d.title {
            Some(t) => trimmed_string(t.as_str()),
            None => {
                return None;
            },
        };
        if title.as_str().unicode_len() == 0 {
            return None;
        }
        let source_id = match &d.key {
            Some(k) => trim_start_matches(k.as_str(), "/works/"),
            None => trim_start_matches("", "/works/"),
        };
        proof {
            reveal_strlit("");
            assert(""@ =~= Seq::<char>::empty());
        }
        let cover_url = match d.cover_i {
            Some(id) => {
                let number = string_of(&decimal(id));
                let front = concat("https://covers.openlibrary.org/b/id/", number.as_str());
                Some(concat(front.as_str(), "-L.jpg"))
            },
            None => None,
        };
        let author = match &d.author_name {
            Some(a) => if a.len() > 0 {
                Some(join_strings(a, ", "))
            } else {
                None
            },
            None => None,
        };
        let mut alternatives: Vec<String> = Vec::new();
        alternatives.push(title.clone());
        proof {
            assert(strings(alternatives@) =~= seq![title@]);
        }
        Some(
            MetadataCandidate {
                source: "open_library".to_owned(),
                source_id,
                media_type: MediaType::Book,
                title,
                title_alternatives: alternatives,
                author,
                description: None,
                cover_url,
                year: d.first_publish_year,
                language: None,
            },
        )
    }

    /// Turns an answer into candidates. An answer that never came, or that
    /// could not be read, is `None` and gives no candidate.
    pub fn candidates(response: Option<OpenLibraryResponse>) -> (out: Vec<MetadataCandidate>)
        ensures
            views(out@) == open_library_answer(response),
    {
        let mut out: Vec<MetadataCandidate> = Vec::new();
        proof {
            assert(views(out@) =~= Seq::<CandidateView>::empty());
        }
        let docs = match response {
            Some(r) => match r.docs {
                Some(docs) => docs,
                None => {
                    return out;
                },
            },
            None => {
                return out;
            },
        };
        let ghost all = docs@;
        for d in it: docs
            invariant
                it.seq() == all,
                views(out@) == open_library_candidates(all.take(it.index())),
        {
            proof {
                assert(all.take(it.index() + 1).drop_last() =~= all.take(it.index()));
                assert(all.take(it.index() + 1).last() == d);
            }
            match OpenLibrarySource::candidate(d) {
                Some(c) => {
                    proof {
                        lemma_views_push(out@, c);
                    }
                    out.push(c);
                },
                None => {},
            }
        }
        proof {
            assert(all.take(all.len() as int) =~= all);
        }
        out
    }
}

/// Where Open Library is asked for `query`.
pub open spec fn open_library_endpoint(query: Seq<u8>) -> Seq<char> {
    OPEN_LIBRARY_URL@ + "?q="@ + percent_encoded(query)
}

impl MetadataSource for OpenLibrarySource {
    fn name(&self) -> (n: &'static str)
        ensures
            n@ == "open_library"@,
    {
        "open_library"
    }

    fn media_type(&self) -> (m: MediaType)
        ensures
            m == MediaType::Book,
    {
        MediaType::Book
    }

    fn timeout_secs(&self) -> (t: u64)
        ensures
            t == OPEN_LIBRARY_TIMEOUT_SECS,
    {
        OPEN_LIBRARY_TIMEOUT_SECS
    }

    fn endpoint(&self, query: &str) -> (url: String)
        ensures
            url@ == open_library_endpoint(query.spec_bytes()),
    {
        let front = concat(OPEN_LIBRARY_URL, "?q=");
        let encoded = url_encode(query);
        concat(front.as_str(), encoded.as_str())
    }
}

} // verus!
