use readito::cache::DEFAULT_CACHE_TTL_SECS;
use readito::enrichment::{
    automatic_update, candidate_from_dto, candidate_to_dto, chosen_record, chosen_update,
    cover_file_name, cover_to_fetch, effective_decision, optional_list,
    sanitize_book_id_for_filename, search_record, summarize,
};
use readito::search::conclude;
use readito::{BookMetadataState, CachedResult, MediaType, MetadataCandidate, RankedCandidate};

fn candidate(title: &str, media_type: MediaType) -> MetadataCandidate {
    MetadataCandidate {
        source: "anilist".to_string(),
        source_id: "30013".to_string(),
        media_type,
        title: title.to_string(),
        title_alternatives: vec![title.to_string(), "alt".to_string()],
        author: Some("Oda".to_string()),
        description: Some("Pirates".to_string()),
        cover_url: Some("https://x/cover.png?size=2".to_string()),
        year: Some(1997),
        language: None,
    }
}

fn flags(author: bool, description: bool, cover: bool) -> BookMetadataState {
    BookMetadataState {
        author_manually_edited: author,
        description_manually_edited: description,
        cover_manually_edited: cover,
        title_manually_edited: false,
    }
}

#[test]
fn candidates_travel_and_come_back() {
    for (kind, word) in [
        (MediaType::Book, "book"),
        (MediaType::Manga, "manga"),
        (MediaType::Anime, "anime"),
    ] {
        let c = candidate("One Piece", kind);
        let dto = candidate_to_dto(&c);
        assert_eq!(dto.media_type, word);
        assert_eq!(dto.title, "One Piece");
        assert_eq!(dto.title_alternatives, c.title_alternatives);
        let back = candidate_from_dto(dto);
        assert_eq!(back.media_type, kind);
        assert_eq!(back.source, c.source);
        assert_eq!(back.source_id, c.source_id);
        assert_eq!(back.author, c.author);
        assert_eq!(back.description, c.description);
        assert_eq!(back.cover_url, c.cover_url);
        assert_eq!(back.year, c.year);
        assert_eq!(back.language, c.language);
    }
}

#[test]
fn unknown_kind_is_a_book() {
    let mut dto = candidate_to_dto(&candidate("x", MediaType::Manga));
    dto.media_type = "novel".to_string();
    assert_eq!(candidate_from_dto(dto).media_type, MediaType::Book);
}

#[test]
fn book_ids_become_file_names() {
    assert_eq!(sanitize_book_id_for_filename("C:\\books/a*b?.cbz"), "C__books_a_b_.cbz");
    assert_eq!(sanitize_book_id_for_filename("a\"<>|b"), "a____b");
    assert_eq!(sanitize_book_id_for_filename("plain-id_1"), "plain-id_1");
    assert_eq!(sanitize_book_id_for_filename(""), "");
}

#[test]
fn cover_files_are_named_after_the_book() {
    assert_eq!(cover_file_name("a/b", "https://x/cover.png?size=2"), "a_b.png");
    assert_eq!(cover_file_name("id", "https://x/cover.jpeg"), "id.jpg");
    assert_eq!(cover_file_name("id", ""), "id.jpg");
}

#[test]
fn automatic_update_respects_manual_edits() {
    let c = candidate("One Piece", MediaType::Manga);
    let u = automatic_update(&c, &flags(false, false, false), Some("/covers/x.png".to_string()));
    assert_eq!(u.title.as_deref(), Some("One Piece"));
    assert_eq!(u.author.as_deref(), Some("Oda"));
    assert_eq!(u.description.as_deref(), Some("Pirates"));
    assert_eq!(u.cover_path.as_deref(), Some("/covers/x.png"));
    let u = automatic_update(&c, &flags(true, true, true), Some("/covers/x.png".to_string()));
    assert_eq!(u.title.as_deref(), Some("One Piece"));
    assert_eq!(u.author, None);
    assert_eq!(u.description, None);
    assert_eq!(u.cover_path, None);
    let u = automatic_update(&c, &flags(false, false, false), None);
    assert_eq!(u.cover_path, None);
}

#[test]
fn empty_fields_are_not_written() {
    let mut c = candidate("One Piece", MediaType::Manga);
    c.author = Some(String::new());
    c.description = None;
    let u = automatic_update(&c, &flags(false, false, false), None);
    assert_eq!(u.author, None);
    assert_eq!(u.description, None);
    let u = chosen_update(&c, None);
    assert_eq!(u.author, None);
    assert_eq!(u.description, None);
}

#[test]
fn chosen_update_ignores_manual_edits() {
    let c = candidate("One Piece", MediaType::Manga);
    let u = chosen_update(&c, Some("/covers/x.png".to_string()));
    assert_eq!(u.title.as_deref(), Some("One Piece"));
    assert_eq!(u.author.as_deref(), Some("Oda"));
    assert_eq!(u.description.as_deref(), Some("Pirates"));
    assert_eq!(u.cover_path.as_deref(), Some("/covers/x.png"));
}

#[test]
fn cover_is_fetched_unless_set_by_hand() {
    let c = candidate("One Piece", MediaType::Manga);
    assert_eq!(
        cover_to_fetch(&c, &flags(false, false, false)).as_deref(),
        Some("https://x/cover.png?size=2")
    );
    assert_eq!(cover_to_fetch(&c, &flags(false, false, true)), None);
}

#[test]
fn nothing_found_is_reported_as_such() {
    let r = summarize(&None);
    assert!(!r.applied && !r.confirmed);
    assert_eq!(r.score, 0);
    assert_eq!(r.source, "");
    assert_eq!(r.title, None);
    assert_eq!(r.author, None);
    assert!(!r.has_description && !r.has_cover);
    assert!(r.candidates.is_empty());
}

#[test]
fn single_confirmed_candidate_is_reported_as_applied() {
    let result = conclude(
        &vec!["q".to_string()],
        vec![RankedCandidate { candidate: candidate("One Piece", MediaType::Manga), score: 70_000 }],
        &flags(false, false, false),
    );
    let r = summarize(&result);
    assert!(r.applied && r.confirmed);
    assert_eq!(r.score, 70_000);
    assert_eq!(r.source, "anilist");
    assert_eq!(r.title.as_deref(), Some("One Piece"));
    assert_eq!(r.author.as_deref(), Some("Oda"));
    assert!(r.has_description && r.has_cover);
    assert_eq!(r.candidates.len(), 1);
    assert_eq!(r.candidates[0].score, 70_000);
    assert_eq!(r.candidates[0].candidate.media_type, "manga");
}

#[test]
fn several_candidates_are_reported_unapplied_with_a_hint() {
    let result = conclude(
        &vec!["q".to_string()],
        vec![
            RankedCandidate { candidate: candidate("Second", MediaType::Book), score: 60_000 },
            RankedCandidate { candidate: candidate("First", MediaType::Book), score: 80_000 },
        ],
        &flags(false, false, false),
    );
    let d = effective_decision(result.as_ref().expect("a result"));
    assert!(!d.apply);
    assert!(d.confirmed);
    assert_eq!(d.candidate.title, "First");
    let r = summarize(&result);
    assert!(!r.applied);
    assert!(r.confirmed);
    assert_eq!(r.score, 80_000);
    assert_eq!(r.title.as_deref(), Some("First"));
    assert_eq!(r.candidates.len(), 2);
    assert_eq!(r.candidates[1].candidate.title, "Second");
}

#[test]
fn no_chapters_is_no_list() {
    assert!(optional_list(&Vec::new()).is_none());
    let names = vec!["a".to_string()];
    assert_eq!(optional_list(&names), Some(&names[..]));
}

#[test]
fn cache_entries_expire_after_their_time() {
    assert_eq!(DEFAULT_CACHE_TTL_SECS, 604_800);
    let entry = CachedResult {
        source: "loc".to_string(),
        results_json: "[]".to_string(),
        cached_at: 1_000,
    };
    assert!(!entry.is_expired_at(1_000, 10));
    assert!(!entry.is_expired_at(1_010, 10));
    assert!(entry.is_expired_at(1_011, 10));
    assert!(!entry.is_expired_at(0, 10));
    let ancient = CachedResult {
        source: "loc".to_string(),
        results_json: "[]".to_string(),
        cached_at: i64::MIN,
    };
    assert!(ancient.is_expired_at(i64::MAX, i64::MAX));
}

#[test]
fn cache_entries_are_judged_by_the_clock() {
    let old = CachedResult {
        source: "loc".to_string(),
        results_json: "[]".to_string(),
        cached_at: 0,
    };
    assert!(old.is_expired(DEFAULT_CACHE_TTL_SECS));
    let future = CachedResult {
        source: "loc".to_string(),
        results_json: "[]".to_string(),
        cached_at: i64::MAX,
    };
    assert!(!future.is_expired(DEFAULT_CACHE_TTL_SECS));
}

#[test]
fn a_search_leaves_a_line_in_the_log() {
    let result = conclude(
        &vec!["first query".to_string(), "second".to_string()],
        vec![
            RankedCandidate { candidate: candidate("Second", MediaType::Book), score: 60_000 },
            RankedCandidate { candidate: candidate("First", MediaType::Book), score: 80_000 },
        ],
        &flags(false, false, false),
    )
    .expect("a result");
    let r = search_record("book-1", &result, 1_700_000_000);
    assert_eq!(r.book_id, "book-1");
    assert_eq!(r.source, "anilist");
    assert_eq!(r.source_id.as_deref(), Some("30013"));
    assert_eq!(r.score, 80_000);
    assert_eq!(r.query_used, "first query");
    assert!(!r.applied);
    assert!(r.confirmed);
    assert_eq!(r.timestamp, 1_700_000_000);
}

#[test]
fn a_choice_leaves_a_line_in_the_log() {
    let r = chosen_record("book-1", &candidate("One Piece", MediaType::Manga), 5);
    assert_eq!(r.book_id, "book-1");
    assert_eq!(r.source, "anilist");
    assert_eq!(r.source_id.as_deref(), Some("30013"));
    assert_eq!(r.score, 100_000);
    assert_eq!(r.query_used, "");
    assert!(r.applied && r.confirmed);
    assert_eq!(r.timestamp, 5);
}

#[test]
fn a_title_set_by_hand_is_not_overwritten() {
    let c = candidate("One Piece", MediaType::Manga);
    let edited = BookMetadataState {
        author_manually_edited: false,
        description_manually_edited: false,
        cover_manually_edited: false,
        title_manually_edited: true,
    };
    let u = automatic_update(&c, &edited, Some("/covers/x.png".to_string()));
    assert_eq!(u.title, None);
    assert_eq!(u.author.as_deref(), Some("Oda"));
    assert_eq!(u.description.as_deref(), Some("Pirates"));
    assert_eq!(u.cover_path.as_deref(), Some("/covers/x.png"));
    let all = BookMetadataState {
        author_manually_edited: true,
        description_manually_edited: true,
        cover_manually_edited: true,
        title_manually_edited: true,
    };
    let u = automatic_update(&c, &all, Some("/covers/x.png".to_string()));
    assert_eq!(u.title, None);
    assert_eq!(u.author, None);
    assert_eq!(u.description, None);
    assert_eq!(u.cover_path, None);
    let u = chosen_update(&c, None);
    assert_eq!(u.title.as_deref(), Some("One Piece"));
}

#[test]
fn results_of_a_search_are_well_formed() {
    let result = conclude(
        &vec!["q".to_string()],
        vec![
            RankedCandidate { candidate: candidate("Second", MediaType::Book), score: 60_000 },
            RankedCandidate { candidate: candidate("First", MediaType::Book), score: 80_000 },
        ],
        &flags(false, false, false),
    )
    .expect("a result");
    assert!(result.is_well_formed());
    let mut swapped = conclude(
        &vec!["q".to_string()],
        vec![
            RankedCandidate { candidate: candidate("Second", MediaType::Book), score: 60_000 },
            RankedCandidate { candidate: candidate("First", MediaType::Book), score: 80_000 },
        ],
        &flags(false, false, false),
    )
    .expect("a result");
    swapped.ranked_candidates.swap(0, 1);
    assert!(!swapped.is_well_formed());
    let mut lone = conclude(
        &vec!["q".to_string()],
        vec![RankedCandidate { candidate: candidate("One", MediaType::Book), score: 70_000 }],
        &flags(false, false, false),
    )
    .expect("a result");
    assert!(lone.is_well_formed());
    lone.decision = None;
    assert!(!lone.is_well_formed());
    let mut emptied = conclude(
        &vec!["q".to_string()],
        vec![RankedCandidate { candidate: candidate("One", MediaType::Book), score: 70_000 }],
        &flags(false, false, false),
    )
    .expect("a result");
    emptied.ranked_candidates.clear();
    assert!(!emptied.is_well_formed());
    let mut low = conclude(
        &vec!["q".to_string()],
        vec![RankedCandidate { candidate: candidate("One", MediaType::Book), score: 70_000 }],
        &flags(false, false, false),
    )
    .expect("a result");
    low.ranked_candidates[0].score = 10_000;
    assert!(!low.is_well_formed());
}

#[test]
fn candidates_are_compared_field_by_field() {
    let a = candidate("One Piece", MediaType::Manga);
    assert!(a.same_as(&candidate("One Piece", MediaType::Manga)));
    assert!(!a.same_as(&candidate("One Piece", MediaType::Book)));
    assert!(!a.same_as(&candidate("Two Piece", MediaType::Manga)));
    let mut b = candidate("One Piece", MediaType::Manga);
    b.year = None;
    assert!(!a.same_as(&b));
    let mut b = candidate("One Piece", MediaType::Manga);
    b.title_alternatives.push("more".to_string());
    assert!(!a.same_as(&b));
    let mut b = candidate("One Piece", MediaType::Manga);
    b.language = Some("jpn".to_string());
    assert!(!a.same_as(&b));
}
