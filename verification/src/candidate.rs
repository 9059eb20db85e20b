//! The unified shape of one provider's answer.

use crate::text::strings;
use vstd::prelude::*;

verus! {

/// Coarse kind of a catalogued work.
#[derive(Debug, Clone, Copy, PartialEq, Eq, Structural)]
pub enum MediaType {
    Book,
    Anime,
    Manga,
}

/// One provider's proposal for what a catalogue entry is.
#[derive(Debug)]
pub struct MetadataCandidate {
    /// Provider identifier.
    pub source: String,
    /// Identifier of the item at the provider.
    pub source_id: String,
    pub media_type: MediaType,
    /// Primary title.
    pub title: String,
    /// Alternative titles, in the provider's order; may repeat `title`.
    pub title_alternatives: Vec<String>,
    pub author: Option<String>,
    pub description: Option<String>,
    /// Where the cover image can be fetched.
    pub cover_url: Option<String>,
    pub year: Option<i32>,
    pub language: Option<String>,
}

/// A candidate as plain mathematical values.
pub struct CandidateView {
    pub source: Seq<char>,
    pub source_id: Seq<char>,
    pub media_type: MediaType,
    pub title: Seq<char>,
    pub title_alternatives: Seq<Seq<char>>,
    pub author: Option<Seq<char>>,
    pub description: Option<Seq<char>>,
    pub cover_url: Option<Seq<char>>,
    pub year: Option<i32>,
    pub language: Option<Seq<char>>,
}

/// The text of an optional string.
pub open spec fn optional_text(o: Option<String>) -> Option<Seq<char>> {
    match o {
        Some(s) => Some(s@),
        None => None,
    }
}

impl View for MetadataCandidate {
    type V = CandidateView;

    open spec fn view(&self) -> CandidateView {
        CandidateView {
            source: self.source@,
            source_id: self.source_id@,
            media_type: self.media_type,
            title: self.title@,
            title_alternatives: strings(self.title_alternatives@),
            author: optional_text(self.author),
            description: optional_text(self.description),
            cover_url: optional_text(self.cover_url),
            year: self.year,
            language: optional_text(self.language),
        }
    }
}

/// The candidates that a list stands for.
pub open spec fn views(list: Seq<MetadataCandidate>) -> Seq<CandidateView> {
    Seq::new(list.len(), |i: int| list[i]@)
}

/// Pushing a candidate pushes its view.
pub proof fn lemma_views_push(list: Seq<MetadataCandidate>, c: MetadataCandidate)
    ensures
        views(list.push(c)) == views(list).push(c@),
{
    assert(views(list.push(c)) =~= views(list).push(c@));
}

/// A copy of an optional string.
pub fn copy_optional(o: &Option<String>) -> (r: Option<String>)
    ensures
        optional_text(r) == optional_text(*o),
{
    match o {
        Some(s) => Some(s.clone()),
        None => None,
    }
}

/// A copy of a list of strings.
pub fn copy_strings(v: &Vec<String>) -> (r: Vec<String>)
    ensures
        strings(r@) == strings(v@),
{
    let mut r: Vec<String> = Vec::new();
    let mut i: usize = 0;
    while i < v.len()
        invariant
            i <= v.len(),
            r.len() == i,
            forall|k: int| 0 <= k < i ==> (#[trigger] r@[k])@ == v@[k]@,
        decreases v.len() - i,
    {
        r.push(v[i].clone());
        i += 1;
    }
    proof {
        assert(strings(r@) =~= strings(v@));
    }
    r
}

/// Whether two lists of strings hold the same texts in the same order.
pub fn same_strings(a: &Vec<String>, b: &Vec<String>) -> (r: bool)
    ensures
        r == (strings(a@) == strings(b@)),
{
    if a.len() != b.len() {
        proof {
            assert(strings(a@).len() != strings(b@).len());
        }
        return false;
    }
    let mut i: usize = 0;
    while i < a.len()
        invariant
            i <= a.len(),
            a.len() == b.len(),
            forall|k: int| 0 <= k < i ==> (#[trigger] a@[k])@ == b@[k]@,
        decreases a.len() - i,
    {
        if a[i] != b[i] {
            proof {
                assert(strings(a@)[i as int] != strings(b@)[i as int]);
            }
            return false;
        }
        i += 1;
    }
    proof {
        assert(strings(a@) =~= strings(b@));
    }
    true
}

/// Whether two optional strings hold the same text, or both none.
pub fn same_optional(a: &Option<String>, b: &Option<String>) -> (r: bool)
    ensures
        r == (optional_text(*a) == optional_text(*b)),
{
    match (a, b) {
        (Some(x), Some(y)) => *x == *y,
        (None, None) => true,
        _ => false,
    }
}

impl MetadataCandidate {
    /// Whether the other candidate stands for the same candidate.
    pub fn same_as(&self, other: &MetadataCandidate) -> (r: bool)
        ensures
            r == (self@ == other@),
    {
        let same_year = match (self.year, other.year) {
            (Some(x), Some(y)) => x == y,
            (None, None) => true,
            _ => false,
        };
        self.source == other.source && self.source_id == other.source_id && self.media_type
            == other.media_type && self.title == other.title && same_strings(
            &self.title_alternatives,
            &other.title_alternatives,
        ) && same_optional(&self.author, &other.author) && same_optional(
            &self.description,
            &other.description,
        ) && same_optional(&self.cover_url, &other.cover_url) && same_year && same_optional(
            &self.language,
            &other.language,
        )
    }

    /// A copy that stands for the same candidate.
    pub fn duplicate(&self) -> (c: MetadataCandidate)
        ensures
            c@ == self@,
    {
        MetadataCandidate {
            source: self.source.clone(),
            source_id: self.source_id.clone(),
            media_type: self.media_type,
            title: self.title.clone(),
            title_alternatives: copy_strings(&self.title_alternatives),
            author: copy_optional(&self.author),
            description: copy_optional(&self.description),
            cover_url: copy_optional(&self.cover_url),
            year: self.year,
            language: copy_optional(&self.language),
        }
    }
}

impl Clone for MetadataCandidate {
    fn clone(&self) -> (c: MetadataCandidate)
        ensures
            c@ == self@,
    {
        self.duplicate()
    }
}

} // verus!
