use readito::decision::SCORE_THRESHOLD;
use readito::search::{conclude, decide, rank_candidates, MAX_CANDIDATES, MIN_SCORE};
use readito::{
    apply_metadata_decision, resolve, BookMetadataState, MediaType, MetadataCandidate,
    RankedCandidate,
};

fn candidate(id: &str, media_type: MediaType) -> MetadataCandidate {
    MetadataCandidate {
        source: "test".to_string(),
        source_id: id.to_string(),
        media_type,
        title: id.to_string(),
        title_alternatives: vec![id.to_string()],
        author: None,
        description: None,
        cover_url: None,
        year: None,
        language: None,
    }
}

fn scored(id: &str, media_type: MediaType, score: u32) -> RankedCandidate {
    RankedCandidate { candidate: candidate(id, media_type), score }
}

fn flags() -> BookMetadataState {
    BookMetadataState {
        author_manually_edited: false,
        description_manually_edited: false,
        cover_manually_edited: false,
        title_manually_edited: false,
    }
}

fn ids(list: &[RankedCandidate]) -> Vec<String> {
    list.iter().map(|r| r.candidate.source_id.clone()).collect()
}

#[test]
fn thresholds() {
    assert_eq!(MIN_SCORE, 55_000);
    assert_eq!(SCORE_THRESHOLD, 65_000);
    assert_eq!(MAX_CANDIDATES, 5);
}

#[test]
fn ranking_sorts_filters_and_caps() {
    let pool = vec![
        scored("a", MediaType::Book, 60_000),
        scored("b", MediaType::Anime, 99_000),
        scored("c", MediaType::Manga, 80_000),
        scored("d", MediaType::Book, 54_999),
        scored("e", MediaType::Book, 80_000),
        scored("f", MediaType::Book, 55_000),
        scored("g", MediaType::Book, 70_000),
        scored("h", MediaType::Book, 90_000),
        scored("i", MediaType::Book, 56_000),
    ];
    let ranked = rank_candidates(pool);
    assert_eq!(ids(&ranked), vec!["h", "c", "e", "g", "a"]);
    for w in ranked.windows(2) {
        assert!(w[0].score >= w[1].score);
    }
    assert!(ranked.iter().all(|r| r.candidate.media_type != MediaType::Anime));
    assert!(ranked.iter().all(|r| r.score >= MIN_SCORE));
    assert!(ranked.len() <= MAX_CANDIDATES);
}

#[test]
fn equal_scores_keep_the_order_of_discovery() {
    let pool = vec![
        scored("first", MediaType::Book, 70_000),
        scored("second", MediaType::Book, 70_000),
        scored("third", MediaType::Book, 70_000),
    ];
    assert_eq!(ids(&rank_candidates(pool)), vec!["first", "second", "third"]);
}

#[test]
fn empty_pool_gives_empty_ranking() {
    assert!(rank_candidates(Vec::new()).is_empty());
    assert!(rank_candidates(vec![scored("x", MediaType::Anime, 100_000)]).is_empty());
}

#[test]
fn one_candidate_scoring_seventy_is_applied() {
    let r = conclude(
        &vec!["q".to_string()],
        vec![scored("a", MediaType::Book, 70_000)],
        &flags(),
    )
    .expect("a result");
    let d = r.decision.expect("a decision");
    assert!(d.apply);
    assert!(d.confirmed);
    assert_eq!(d.score, 70_000);
    assert_eq!(d.candidate.source_id, "a");
}

#[test]
fn one_candidate_scoring_forty_is_not_applied() {
    let d = apply_metadata_decision(candidate("a", MediaType::Book), 40_000, &flags());
    assert!(!d.apply);
    assert!(!d.confirmed);
    assert_eq!(d.score, 40_000);
}

#[test]
fn one_survivor_below_the_threshold_is_decided_against() {
    let r = conclude(
        &vec!["q".to_string()],
        vec![scored("a", MediaType::Book, 60_000)],
        &flags(),
    )
    .expect("a result");
    let d = r.decision.expect("a decision");
    assert!(!d.apply);
    assert!(!d.confirmed);
}

#[test]
fn threshold_itself_confirms() {
    let d = apply_metadata_decision(candidate("a", MediaType::Book), 65_000, &flags());
    assert!(d.apply && d.confirmed);
    let d = apply_metadata_decision(candidate("a", MediaType::Book), 64_999, &flags());
    assert!(!d.apply && !d.confirmed);
}

#[test]
fn three_candidates_leave_the_decision_to_the_user() {
    let r = conclude(
        &vec!["q".to_string()],
        vec![
            scored("a", MediaType::Book, 60_000),
            scored("b", MediaType::Book, 75_000),
            scored("c", MediaType::Book, 90_000),
        ],
        &flags(),
    )
    .expect("a result");
    assert!(r.decision.is_none());
    assert_eq!(ids(&r.ranked_candidates), vec!["c", "b", "a"]);
    assert!(decide(&r.ranked_candidates, &flags()).is_none());
}

#[test]
fn no_survivor_is_no_result() {
    assert!(conclude(
        &vec!["q".to_string()],
        vec![scored("a", MediaType::Book, 40_000)],
        &flags()
    )
    .is_none());
    assert!(conclude(&vec!["q".to_string()], Vec::new(), &flags()).is_none());
    assert!(conclude(&Vec::new(), vec![scored("a", MediaType::Book, 90_000)], &flags()).is_none());
}

#[test]
fn the_first_query_is_reported() {
    let r = conclude(
        &vec!["first".to_string(), "second".to_string()],
        vec![scored("a", MediaType::Book, 90_000)],
        &flags(),
    )
    .expect("a result");
    assert_eq!(r.search_query_used, "first");
}

#[test]
fn resolve_scores_ranks_and_decides() {
    let mut good = candidate("One Piece", MediaType::Manga);
    good.cover_url = Some("http://c/x.jpg".to_string());
    let pool = vec![
        (candidate("Something Else", MediaType::Book), "one piece".to_string()),
        (good, "one piece".to_string()),
        (candidate("One Piece", MediaType::Anime), "one piece".to_string()),
    ];
    let r = resolve(
        "One Piece",
        None,
        None,
        &vec!["one piece".to_string()],
        pool,
        &flags(),
    )
    .expect("a result");
    assert_eq!(r.ranked_candidates.len(), 1);
    assert_eq!(r.ranked_candidates[0].score, 70_000);
    assert_eq!(r.ranked_candidates[0].candidate.media_type, MediaType::Manga);
    let d = r.decision.expect("a decision");
    assert!(d.apply && d.confirmed);
    assert_eq!(d.candidate.title, "One Piece");
}

#[test]
fn a_provider_without_answers_does_not_stop_the_others() {
    let mut pool = readito::OpenLibrarySource::candidates(None);
    pool.extend(readito::LocSource::candidates(None));
    pool.push(candidate("Dune", MediaType::Book));
    let pool = pool.into_iter().map(|c| (c, "dune".to_string())).collect();
    let r = resolve("Dune", None, None, &vec!["dune".to_string()], pool, &flags())
        .expect("a result");
    assert_eq!(r.ranked_candidates.len(), 1);
}
