//! What a finished search means for the catalogue entry: what is reported
//! to the caller, and which fields of the entry are overwritten.

use crate::candidate::{
    copy_optional, copy_strings, optional_text, CandidateView, MediaType, MetadataCandidate,
};
use crate::decision::{BookMetadataState, MetadataDecision, MAX_SCORE, SCORE_THRESHOLD};
use crate::scorer::text_is;
use crate::search::{RankedCandidate, SearchResult};
use crate::sources::mapping::concat;
use crate::text::{chars_of, contains_sub, is_substring, string_of, strings};
use vstd::prelude::*;
use vstd::string::StrSliceExecFns;

verus! {

/// A candidate as it travels to and from the user interface: the kind of
/// work is a word.
#[derive(Debug)]
pub struct MetadataCandidateDto {
    pub source: String,
    pub source_id: String,
    pub media_type: String,
    pub title: String,
    pub title_alternatives: Vec<String>,
    pub author: Option<String>,
    pub description: Option<String>,
    pub cover_url: Option<String>,
    pub year: Option<i32>,
    pub language: Option<String>,
}

/// The word for a kind of work.
pub open spec fn media_type_word(m: MediaType) -> Seq<char> {
    match m {
        MediaType::Book => "book"@,
        MediaType::Anime => "anime"@,
        MediaType::Manga => "manga"@,
    }
}

/// The kind of work that a word names; any word but `manga` and `anime`
/// names a book.
pub open spec fn media_type_named(word: Seq<char>) -> MediaType {
    if word == "manga"@ {
        MediaType::Manga
    } else if word == "anime"@ {
        MediaType::Anime
    } else {
        MediaType::Book
    }
}

/// The candidate that a travelling candidate stands for.
pub open spec fn dto_view(dto: MetadataCandidateDto) -> CandidateView {
    CandidateView {
        source: dto.source@,
        source_id: dto.source_id@,
        media_type: media_type_named(dto.media_type@),
        title: dto.title@,
        title_alternatives: strings(dto.title_alternatives@),
        author: optional_text(dto.author),
        description: optional_text(dto.description),
        cover_url: optional_text(dto.cover_url),
        year: dto.year,
        language: optional_text(dto.language),
    }
}

/// The three words for the kinds of work differ.
pub proof fn lemma_media_type_words_differ()
    ensures
        "book"@ != "manga"@,
        "book"@ != "anime"@,
        "anime"@ != "manga"@,
{
    reveal_strlit("book");
    reveal_strlit("manga");
    reveal_strlit("anime");
    assert("book"@.len() != "manga"@.len());
    assert("book"@.len() != "anime"@.len());
    assert("anime"@[0] != "manga"@[0]);
}

/// Naming a kind of work and reading the name gives the kind back.
pub proof fn lemma_media_type_round_trip(m: MediaType)
    ensures
        media_type_named(media_type_word(m)) == m,
{
    lemma_media_type_words_differ();
}

/// Makes a candidate ready to travel.
pub fn candidate_to_dto(c: &MetadataCandidate) -> (dto: MetadataCandidateDto)
    ensures
        dto.media_type@ == media_type_word(c.media_type),
        dto_view(dto) == c@,
{
    proof {
        lemma_media_type_round_trip(c.media_type);
    }
    let word = match c.media_type {
        MediaType::Book => "book",
        MediaType::Anime => "anime",
        MediaType::Manga => "manga",
    };
    MetadataCandidateDto {
        source: c.source.clone(),
        source_id: c.source_id.clone(),
        media_type: word.to_owned(),
        title: c.title.clone(),
        title_alternatives: copy_strings(&c.title_alternatives),
        author: copy_optional(&c.author),
        description: copy_optional(&c.description),
        cover_url: copy_optional(&c.cover_url),
        year: c.year,
        language: copy_optional(&c.language),
    }
}

/// Reads a candidate that came back from the user interface.
pub fn candidate_from_dto(dto: MetadataCandidateDto) -> (c: MetadataCandidate)
    ensures
        c@ == dto_view(dto),
{
    let word = chars_of(dto.media_type.as_str());
    let media_type = if text_is(&word, "manga") {
        MediaType::Manga
    } else if text_is(&word, "anime") {
        MediaType::Anime
    } else {
        MediaType::Book
    };
    MetadataCandidate {
        source: dto.source,
        source_id: dto.source_id,
        media_type,
        title: dto.title,
        title_alternatives: dto.title_alternatives,
        author: dto.author,
        description: dto.description,
        cover_url: dto.cover_url,
        year: dto.year,
        language: dto.language,
    }
}

/// A ranked candidate as it travels to the user interface.
#[derive(Debug)]
pub struct RankedCandidateDto {
    pub candidate: MetadataCandidateDto,
    pub score: u32,
}

/// What a search reports to its caller.
#[derive(Debug)]
pub struct SearchMetadataResult {
    /// Whether the best candidate is written to the catalogue unasked.
    pub applied: bool,
    /// Whether the best candidate reached the threshold.
    pub confirmed: bool,
    pub score: u32,
    pub source: String,
    pub title: Option<String>,
    pub author: Option<String>,
    pub has_description: bool,
    pub has_cover: bool,
    /// The ranked candidates, for the user to choose from.
    pub candidates: Vec<RankedCandidateDto>,
}

/// The decision that a result stands for: its own if it has one; else the
/// best candidate, not applied, and confirmed if it reaches the threshold.
pub fn effective_decision(result: &SearchResult) -> (d: MetadataDecision)
    requires
        result.well_formed(),
    ensures
        d.candidate@ == result.ranked_candidates@[0].candidate@,
        d.score == result.ranked_candidates@[0].score,
        d.confirmed == (d.score >= SCORE_THRESHOLD),
        d.apply == (result.ranked_candidates@.len() == 1 && d.confirmed),
{
    match &result.decision {
        Some(dec) => MetadataDecision {
            apply: dec.apply,
            confirmed: dec.confirmed,
            score: dec.score,
            candidate: dec.candidate.duplicate(),
        },
        None => {
            let best = &result.ranked_candidates[0];
            MetadataDecision {
                apply: false,
                confirmed: best.score >= SCORE_THRESHOLD,
                score: best.score,
                candidate: best.candidate.duplicate(),
            }
        },
    }
}

/// Whether `report` says of `ranked` what a report has to say: the ranked
/// candidates in their order, and of the best one its score, its source, its
/// title, its author, and whether it has a description and a cover.
pub open spec fn reports(report: SearchMetadataResult, ranked: Seq<RankedCandidate>) -> bool {
    &&& ranked.len() > 0
    &&& report.confirmed == (ranked[0].score >= SCORE_THRESHOLD)
    &&& report.applied == (ranked.len() == 1 && report.confirmed)
    &&& report.score == ranked[0].score
    &&& report.source@ == ranked[0].candidate@.source
    &&& optional_text(report.title) == Some(ranked[0].candidate@.title)
    &&& optional_text(report.author) == ranked[0].candidate@.author
    &&& report.has_description == (ranked[0].candidate@.description is Some)
    &&& report.has_cover == (ranked[0].candidate@.cover_url is Some)
    &&& report.candidates@.len() == ranked.len()
    &&& forall|i: int|
        0 <= i < ranked.len() ==> dto_view((#[trigger] report.candidates@[i]).candidate)
            == ranked[i].candidate@ && report.candidates@[i].score == ranked[i].score
}

/// A report that says that nothing was found.
pub open spec fn reports_nothing(report: SearchMetadataResult) -> bool {
    &&& !report.applied
    &&& !report.confirmed
    &&& report.score == 0
    &&& report.source@.len() == 0
    &&& report.title is None
    &&& report.author is None
    &&& !report.has_description
    &&& !report.has_cover
    &&& report.candidates@.len() == 0
}

/// Reports the outcome of a search. That nothing was found is an ordinary
/// report, not a failure.
pub fn summarize(result: &Option<SearchResult>) -> (report: SearchMetadataResult)
    requires
        result matches Some(r) ==> r.well_formed(),
    ensures
        match result {
            Some(r) => reports(report, r.ranked_candidates@),
            None => reports_nothing(report),
        },
{
    match result {
        None => SearchMetadataResult {
            applied: false,
            confirmed: false,
            score: 0,
            source: String::new(),
            title: None,
            author: None,
            has_description: false,
            has_cover: false,
            candidates: Vec::new(),
        },
        Some(r) => {
            let mut candidates: Vec<RankedCandidateDto> = Vec::new();
            let mut i: usize = 0;
            while i < r.ranked_candidates.len()
                invariant
                    i <= r.ranked_candidates.len(),
                    candidates.len() == i,
                    forall|k: int|
                        0 <= k < i ==> dto_view((#[trigger] candidates@[k]).candidate)
                            == r.ranked_candidates@[k].candidate@ && candidates@[k].score
                            == r.ranked_candidates@[k].score,
                decreases r.ranked_candidates.len() - i,
            {
                let entry = &r.ranked_candidates[i];
                candidates.push(
                    RankedCandidateDto {
                        candidate: candidate_to_dto(&entry.candidate),
                        score: entry.score,
                    },
                );
                i += 1;
            }
            let dec = effective_decision(r);
            SearchMetadataResult {
                applied: dec.apply,
                confirmed: dec.confirmed,
                score: dec.score,
                source: dec.candidate.source.clone(),
                title: Some(dec.candidate.title.clone()),
                author: copy_optional(&dec.candidate.author),
                has_description: dec.candidate.description.is_some(),
                has_cover: dec.candidate.cover_url.is_some(),
                candidates,
            }
        },
    }
}

/// The character that stands for `c` in a file name: an underscore for what
/// file systems refuse, else `c` itself.
pub open spec fn file_name_char(c: char) -> char {
    if c == '/' || c == '\\' || c == ':' || c == '*' || c == '?' || c == '"' || c == '<' || c
        == '>' || c == '|' {
        '_'
    } else {
        c
    }
}

/// An identifier made fit for a file name.
pub open spec fn file_name_of(id: Seq<char>) -> Seq<char> {
    Seq::new(id.len(), |i: int| file_name_char(id[i]))
}

/// Makes the identifier of a book fit for a file name.
pub fn sanitize_book_id_for_filename(book_id: &str) -> (name: String)
    ensures
        name@ == file_name_of(book_id@),
{
    let all = chars_of(book_id);
    let mut out: Vec<char> = Vec::new();
    let mut i: usize = 0;
    while i < all.len()
        invariant
            i <= all.len(),
            out@ == file_name_of(all@).take(i as int),
        decreases all.len() - i,
    {
        let c = all[i];
        let mapped = if c == '/' || c == '\\' || c == ':' || c == '*' || c == '?' || c == '"' || c
            == '<' || c == '>' || c == '|' {
            '_'
        } else {
            c
        };
        out.push(mapped);
        proof {
            assert(out@ =~= file_name_of(all@).take(i as int + 1));
        }
        i += 1;
    }
    proof {
        assert(out@ =~= file_name_of(all@));
    }
    string_of(&out)
}

/// The file extension for a cover: `png` if the address says so anywhere,
/// else `jpg`.
pub open spec fn cover_extension(url: Seq<char>) -> Seq<char> {
    if is_substring(".png"@, url) {
        "png"@
    } else {
        "jpg"@
    }
}

/// The file name under which the cover of a book is stored.
pub open spec fn cover_file_name_of(book_id: Seq<char>, url: Seq<char>) -> Seq<char> {
    file_name_of(book_id) + "."@ + cover_extension(url)
}

/// Names the file under which the cover of a book is stored.
pub fn cover_file_name(book_id: &str, cover_url: &str) -> (name: String)
    ensures
        name@ == cover_file_name_of(book_id@, cover_url@),
{
    let url = chars_of(cover_url);
    let png = chars_of(".png");
    let extension = if contains_sub(&url, &png) {
        "png"
    } else {
        "jpg"
    };
    let safe = sanitize_book_id_for_filename(book_id);
    let dotted = concat(safe.as_str(), ".");
    concat(dotted.as_str(), extension)
}

/// New values for the fields of a catalogue entry. A field that is `None`
/// keeps its value.
#[derive(Debug)]
pub struct BookUpdate {
    pub title: Option<String>,
    pub author: Option<String>,
    pub description: Option<String>,
    pub cover_path: Option<String>,
}

/// A text that is there and not empty.
pub open spec fn filled(o: Option<Seq<char>>) -> Option<Seq<char>> {
    match o {
        Some(s) => if s.len() > 0 {
            Some(s)
        } else {
            None
        },
        None => None,
    }
}

/// A copy of a text that is there and not empty.
pub fn copy_filled(o: &Option<String>) -> (r: Option<String>)
    ensures
        optional_text(r) == filled(optional_text(*o)),
{
    match o {
        Some(s) => if s.as_str().unicode_len() > 0 {
            Some(s.clone())
        } else {
            None
        },
        None => None,
    }
}

/// The address of the cover to fetch when a candidate is applied unasked:
/// the candidate's, unless the cover of the entry was set by hand.
pub fn cover_to_fetch(candidate: &MetadataCandidate, flags: &BookMetadataState) -> (url: Option<
    String,
>)
    ensures
        optional_text(url) == (if flags.cover_manually_edited {
            None
        } else {
            candidate@.cover_url
        }),
{
    if flags.cover_manually_edited {
        None
    } else {
        copy_optional(&candidate.cover_url)
    }
}

/// What a candidate that is applied unasked overwrites. A field that was set
/// by hand is never overwritten. Of the others the title is always written,
/// author and description if the candidate has them, and the cover if one
/// was fetched.
pub fn automatic_update(
    candidate: &MetadataCandidate,
    flags: &BookMetadataState,
    fetched_cover: Option<String>,
) -> (update: BookUpdate)
    ensures
        optional_text(update.title) == (if flags.title_manually_edited {
            None
        } else {
            Some(candidate@.title)
        }),
        optional_text(update.author) == (if flags.author_manually_edited {
            None
        } else {
            filled(candidate@.author)
        }),
        optional_text(update.description) == (if flags.description_manually_edited {
            None
        } else {
            filled(candidate@.description)
        }),
        optional_text(update.cover_path) == (if flags.cover_manually_edited {
            None
        } else {
            optional_text(fetched_cover)
        }),
{
    BookUpdate {
        title: if flags.title_manually_edited {
            None
        } else {
            Some(candidate.title.clone())
        },
        author: if flags.author_manually_edited {
            None
        } else {
            copy_filled(&candidate.author)
        },
        description: if flags.description_manually_edited {
            None
        } else {
            copy_filled(&candidate.description)
        },
        cover_path: if flags.cover_manually_edited {
            None
        } else {
            fetched_cover
        },
    }
}

/// What a candidate that the user chose overwrites: the title, and whatever
/// else the candidate has; the marks of manual editing do not count against
/// the user's own choice.
pub fn chosen_update(candidate: &MetadataCandidate, fetched_cover: Option<String>) -> (update:
    BookUpdate)
    ensures
        optional_text(update.title) == Some(candidate@.title),
        optional_text(update.author) == filled(candidate@.author),
        optional_text(update.description) == filled(candidate@.description),
        optional_text(update.cover_path) == optional_text(fetched_cover),
{
    BookUpdate {
        title: Some(candidate.title.clone()),
        author: copy_filled(&candidate.author),
        description: copy_filled(&candidate.description),
        cover_path: fetched_cover,
    }
}

/// The chapter names or paths as a search takes them: no list if there is
/// no chapter.
pub fn optional_list(list: &Vec<String>) -> (r: Option<&[String]>)
    ensures
        match r {
            Some(s) => list.len() > 0 && s@ == list@,
            None => list.len() == 0,
        },
{
    if list.len() == 0 {
        None
    } else {
        Some(list.as_slice())
    }
}

/// One line of the log of searches: what was looked for, what was found
/// best, and what was done with it.
#[derive(Debug)]
pub struct SearchRecord {
    pub book_id: String,
    pub source: String,
    pub source_id: Option<String>,
    pub score: u32,
    pub query_used: String,
    pub applied: bool,
    pub confirmed: bool,
    /// When the search was made, in seconds since the epoch.
    pub timestamp: i64,
}

/// The line that a search leaves in the log: its best candidate, the first
/// query that was generated, and the decision that the result stands for.
pub fn search_record(book_id: &str, result: &SearchResult, timestamp: i64) -> (record: SearchRecord)
    requires
        result.well_formed(),
    ensures
        record.book_id@ == book_id@,
        record.source@ == result.ranked_candidates@[0].candidate@.source,
        optional_text(record.source_id) == Some(result.ranked_candidates@[0].candidate@.source_id),
        record.score == result.ranked_candidates@[0].score,
        record.query_used@ == result.search_query_used@,
        record.confirmed == (record.score >= SCORE_THRESHOLD),
        record.applied == (result.ranked_candidates@.len() == 1 && record.confirmed),
        record.timestamp == timestamp,
{
    let dec = effective_decision(result);
    SearchRecord {
        book_id: book_id.to_owned(),
        source: dec.candidate.source.clone(),
        source_id: Some(dec.candidate.source_id.clone()),
        score: dec.score,
        query_used: result.search_query_used.clone(),
        applied: dec.apply,
        confirmed: dec.confirmed,
        timestamp,
    }
}

/// The line that the user's own choice leaves in the log: the full score, no
/// query, applied and confirmed.
pub fn chosen_record(book_id: &str, candidate: &MetadataCandidate, timestamp: i64) -> (record:
    SearchRecord)
    ensures
        record.book_id@ == book_id@,
        record.source@ == candidate@.source,
        optional_text(record.source_id) == Some(candidate@.source_id),
        record.score == MAX_SCORE,
        record.query_used@.len() == 0,
        record.applied,
        record.confirmed,
        record.timestamp == timestamp,
{
    SearchRecord {
        book_id: book_id.to_owned(),
        source: candidate.source.clone(),
        source_id: Some(candidate.source_id.clone()),
        score: MAX_SCORE,
        query_used: String::new(),
        applied: true,
        confirmed: true,
        timestamp,
    }
}

} // verus!
