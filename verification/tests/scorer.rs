use readito::{
    score_candidate, score_candidate_with_context, MediaType, MetadataCandidate, ScoreContext,
};
use readito::scorer::{author_score, looks_western_book, title_similarity};

fn candidate(title: &str, media_type: MediaType) -> MetadataCandidate {
    MetadataCandidate {
        source: "test".to_string(),
        source_id: "1".to_string(),
        media_type,
        title: title.to_string(),
        title_alternatives: vec![title.to_string()],
        author: None,
        description: None,
        cover_url: None,
        year: None,
        language: None,
    }
}

fn chars(s: &str) -> Vec<char> {
    s.chars().collect()
}

#[test]
fn exact_title_without_anything_else_scores_sixty_five() {
    let c = candidate("One Piece", MediaType::Book);
    assert_eq!(score_candidate(&c, "One Piece", None, None), 65_000);
}

#[test]
fn cover_and_description_add_five_points_each() {
    let mut c = candidate("One Piece", MediaType::Book);
    c.cover_url = Some("http://x/y.jpg".to_string());
    assert_eq!(score_candidate(&c, "One Piece", None, None), 70_000);
    c.description = Some("pirates".to_string());
    assert_eq!(score_candidate(&c, "One Piece", None, None), 75_000);
}

#[test]
fn title_contained_in_search_scores_at_least_ninety() {
    let mut c = candidate("One Piece", MediaType::Manga);
    c.title_alternatives = vec!["Wan Pīsu".to_string()];
    let t = title_similarity(&c, &chars(&readito::normalize("One Piece Vol 01")));
    assert!(t >= 90_000);
    assert_eq!(t, 100_000);
}

#[test]
fn containment_floors_the_title_score_at_ninety() {
    let c = candidate("One Piece Omnibus Collection", MediaType::Book);
    assert_eq!(title_similarity(&c, &chars("one piece")), 90_000);
}

#[test]
fn jaccard_counts_shared_words() {
    let c = candidate("Blue Piece", MediaType::Book);
    // {one, piece} and {blue, piece}: one of three words is shared
    assert_eq!(title_similarity(&c, &chars("one piece")), 33_333);
}

#[test]
fn empty_search_title_scores_nothing_for_the_title() {
    let c = candidate("One Piece", MediaType::Book);
    assert_eq!(title_similarity(&c, &chars("")), 0);
    // 25 % of neutral author, year and language neutral
    assert_eq!(score_candidate(&c, "", None, None), 25_000);
}

#[test]
fn blank_alternatives_are_skipped() {
    let mut c = candidate("???", MediaType::Book);
    c.title_alternatives = vec!["".to_string(), "!!".to_string()];
    assert_eq!(title_similarity(&c, &chars("one piece")), 0);
}

#[test]
fn author_scores() {
    let mut c = candidate("Dune", MediaType::Book);
    assert_eq!(author_score(&c, None), 50_000);
    assert_eq!(author_score(&c, Some("Frank Herbert")), 0);
    c.author = Some("Frank Herbert".to_string());
    assert_eq!(author_score(&c, None), 50_000);
    assert_eq!(author_score(&c, Some("Herbert")), 100_000);
    assert_eq!(author_score(&c, Some("Frank Patrick Herbert")), 53_333);
    assert_eq!(author_score(&c, Some("Brian Herbert")), 40_000);
    assert_eq!(author_score(&c, Some("Isaac Asimov")), 0);
}

#[test]
fn author_overlap_enters_the_weighted_sum() {
    let mut c = candidate("A Game of Thrones", MediaType::Book);
    c.author = Some("George Martin".to_string());
    // title 100, author 2 of 3 words: (40 * 100000 + 25 * 53333 + 750000 + 500000) / 100
    assert_eq!(
        score_candidate(&c, "A Game of Thrones", Some("George R. R. Martin"), None),
        65_833
    );
}

#[test]
fn manga_gains_when_the_search_is_japanese() {
    let c = candidate("ワンピース", MediaType::Manga);
    assert_eq!(score_candidate(&c, "ワンピース", None, None), 80_000);
    let latin = candidate("One Piece", MediaType::Manga);
    assert_eq!(score_candidate(&latin, "One Piece", None, None), 65_000);
    let ctx = ScoreContext::new("One Piece", Some("/マンガ/One Piece"));
    assert!(ctx.is_japanese);
    assert_eq!(
        score_candidate_with_context(&latin, "One Piece", None, None, Some(&ctx)),
        80_000
    );
}

#[test]
fn anime_loses_when_the_title_reads_like_a_western_book() {
    let c = candidate("Game of Thrones", MediaType::Anime);
    assert_eq!(score_candidate(&c, "Game of Thrones", None, None), 25_000);
    let plain = candidate("Naruto", MediaType::Anime);
    assert_eq!(score_candidate(&plain, "Naruto", None, None), 65_000);
}

#[test]
fn scores_stay_between_zero_and_hundred() {
    let mut low = candidate("zzz", MediaType::Anime);
    low.author = None;
    assert_eq!(score_candidate(&low, "Lord of the Rings", Some("Tolkien"), None), 0);
    let mut high = candidate("ワンピース", MediaType::Manga);
    high.author = Some("Oda".to_string());
    high.cover_url = Some("c".to_string());
    high.description = Some("d".to_string());
    assert_eq!(score_candidate(&high, "ワンピース", Some("Oda"), None), 100_000);
}

#[test]
fn western_book_titles() {
    assert!(looks_western_book(&chars("game of thrones")));
    assert!(looks_western_book(&chars("dragon saga")));
    assert!(!looks_western_book(&chars("dragon")));
    assert!(!looks_western_book(&chars("lord of the rings 2")));
    assert!(!looks_western_book(&chars("one piece")));
    assert!(!looks_western_book(&chars("beginning after")));
}

#[test]
fn context_reads_title_and_path() {
    assert!(!ScoreContext::new("One Piece", None).is_japanese);
    assert!(ScoreContext::new("進撃", None).is_japanese);
    assert!(!ScoreContext::new("One Piece", Some("/manga/One Piece")).is_japanese);
    let ctx = ScoreContext::new("t", Some("p"));
    assert_eq!(ctx.search_title, "t");
    assert_eq!(ctx.search_path.as_deref(), Some("p"));
}
