use readito::{Aggregator, MediaType, MetadataCandidate};

fn candidate(id: &str) -> MetadataCandidate {
    MetadataCandidate {
        source: "test".to_string(),
        source_id: id.to_string(),
        media_type: MediaType::Book,
        title: id.to_string(),
        title_alternatives: vec![id.to_string()],
        author: None,
        description: None,
        cover_url: None,
        year: None,
        language: None,
    }
}

fn queries(list: &[&str]) -> Vec<String> {
    list.iter().map(|s| s.to_string()).collect()
}

#[test]
fn rounds_wait_for_every_catalogue() {
    let mut a = Aggregator::new(queries(&["first", "second"]), 3);
    assert!(!a.finished());
    assert_eq!(a.current_query().map(String::as_str), Some("first"));
    a = a.record(vec![candidate("1")]);
    assert_eq!(a.current_query().map(String::as_str), Some("first"));
    a = a.record(Vec::new());
    assert_eq!(a.current_query().map(String::as_str), Some("first"));
    a = a.record(vec![candidate("2"), candidate("3")]);
    assert_eq!(a.current_query().map(String::as_str), Some("second"));
    a = a.record(Vec::new());
    a = a.record(vec![candidate("4")]);
    assert!(!a.finished());
    a = a.record(Vec::new());
    assert!(a.finished());
    assert_eq!(a.current_query(), None);
    let pool = a.into_pool();
    let got: Vec<(String, String)> =
        pool.into_iter().map(|(c, q)| (c.source_id, q)).collect();
    let want: Vec<(String, String)> = [("1", "first"), ("2", "first"), ("3", "first"), ("4", "second")]
        .iter()
        .map(|(c, q)| (c.to_string(), q.to_string()))
        .collect();
    assert_eq!(got, want);
}

#[test]
fn a_search_of_silent_catalogues_still_ends() {
    let mut a = Aggregator::new(queries(&["a", "b", "c"]), 4);
    let mut answers = 0;
    while !a.finished() {
        a = a.record(Vec::new());
        answers += 1;
    }
    assert_eq!(answers, 12);
    assert!(a.into_pool().is_empty());
}

#[test]
fn nothing_to_ask_is_finished_at_once() {
    assert!(Aggregator::new(Vec::new(), 4).finished());
    let a = Aggregator::new(queries(&["a"]), 0);
    assert!(a.finished());
    assert_eq!(a.current_query(), None);
}

#[test]
fn answers_after_the_end_are_dropped() {
    let mut a = Aggregator::new(queries(&["a"]), 1);
    a = a.record(vec![candidate("1")]);
    assert!(a.finished());
    a = a.record(vec![candidate("late")]);
    assert!(a.finished());
    assert_eq!(a.into_pool().len(), 1);
}
