use readito::normalize;
use readito::variations::{
    chapter_path_stems, normal_components, path_parts, title_before_colon_or_dash,
};
use readito::{generate_variations, is_likely_western_book, is_likely_western_from, variations_from_parts};

fn owned(list: &[&str]) -> Vec<String> {
    list.iter().map(|s| s.to_string()).collect()
}

#[test]
fn acronym_title_gives_acronym_and_expansion() {
    let v = generate_variations("GOT", None, None, None, None);
    assert_eq!(v, owned(&["got", "game of thrones"]));
}

#[test]
fn every_known_acronym_is_expanded() {
    let cases = [
        ("asoiaf", "a song of ice and fire"),
        ("LOTR", "lord of the rings"),
        ("hp", "harry potter"),
        ("twot", "the wheel of time"),
        ("WoT", "wheel of time"),
        ("tbate", "the beginning after the end"),
    ];
    for (short, long) in cases {
        let v = generate_variations(short, None, None, None, None);
        assert!(v.contains(&normalize(short)), "{short}");
        assert!(v.contains(&long.to_string()), "{short}");
    }
}

#[test]
fn empty_title_gives_no_variation() {
    assert!(generate_variations("", None, None, None, None).is_empty());
    assert!(generate_variations("   ", None, Some("Tolkien"), None, None).is_empty());
    assert!(generate_variations("Volume 1", None, None, None, None).is_empty());
}

#[test]
fn leading_article_is_dropped_and_author_appended() {
    let v = generate_variations("The Hobbit", None, Some("J.R.R. Tolkien"), None, None);
    assert_eq!(v, owned(&["the hobbit", "hobbit", "the hobbit j r r tolkien"]));
}

#[test]
fn portuguese_article_and_stop_words() {
    let v = generate_variations("O Senhor dos Anéis", None, None, None, None);
    assert_eq!(v, owned(&["o senhor dos aneis", "senhor dos aneis", "senhor aneis"]));
}

#[test]
fn keywords_keep_the_first_five_content_words() {
    let v = generate_variations(
        "The Chronicles of Narnia and the Lion Witch Wardrobe Stories",
        None,
        None,
        None,
        None,
    );
    assert_eq!(
        v,
        owned(&[
            "the chronicles of narnia and the lion witch wardrobe stories",
            "chronicles of narnia and the lion witch wardrobe stories",
            "chronicles narnia lion witch wardrobe",
        ])
    );
}

#[test]
fn variations_hold_no_duplicates() {
    let names = owned(&["One Piece - 001", "One Piece - 002", "One Piece _ extra"]);
    let v = generate_variations(
        "One Piece",
        Some("/library/One Piece/One Piece.cbz"),
        Some("Eiichiro Oda"),
        Some(&names),
        Some(&names),
    );
    let mut seen = v.clone();
    seen.sort();
    seen.dedup();
    assert_eq!(seen.len(), v.len());
    assert_eq!(v[0], "one piece");
}

#[test]
fn parts_of_the_path_give_variations() {
    let v = variations_from_parts(
        "Berserk",
        Some("Berserk Deluxe"),
        Some("Dark Horse"),
        None,
        &Vec::new(),
        &Vec::new(),
    );
    assert_eq!(
        v,
        owned(&["berserk", "berserk deluxe", "dark horse", "dark horse berserk deluxe"])
    );
}

#[test]
fn volume_in_file_name_leaves_the_parent_directory() {
    let v = variations_from_parts(
        "One Piece",
        Some("Vol 01"),
        Some("One Piece"),
        None,
        &Vec::new(),
        &Vec::new(),
    );
    assert_eq!(v, owned(&["one piece"]));
}

#[test]
fn chapter_name_gives_keywords_and_segments() {
    let names = owned(&["001 - The Kingsroad"]);
    let v = variations_from_parts("Berserk", None, None, None, &names, &Vec::new());
    assert_eq!(
        v,
        owned(&["berserk", "001 kingsroad", "the kingsroad", "001 the kingsroad"])
    );
}

#[test]
fn only_the_first_fifteen_chapter_names_count() {
    let mut names: Vec<String> = Vec::new();
    for i in 0..20 {
        names.push(format!("story{}x", (b'a' + i as u8) as char));
    }
    let v = variations_from_parts("", None, None, None, &names, &Vec::new());
    assert_eq!(v.len(), 15);
    assert_eq!(v[0], "storyax");
    assert_eq!(v[14], "storyox");
}

#[test]
fn chapter_stems_give_segments_and_whole() {
    let stems = owned(&["Author Name - Some Title - 001", "12345", "abc"]);
    let v = variations_from_parts("", None, None, None, &Vec::new(), &stems);
    assert_eq!(
        v,
        owned(&["author name", "some title", "author name some title 001"])
    );
}

#[test]
fn short_and_numeric_segments_are_skipped_but_keywords_stay() {
    let names = owned(&["12 - 3456 - ab", "2024"]);
    let v = variations_from_parts("", None, None, None, &names, &Vec::new());
    assert_eq!(v, owned(&["12 3456 ab", "2024"]));
}

#[test]
fn author_without_title_adds_nothing() {
    let v = variations_from_parts("", None, None, Some("Tolkien"), &Vec::new(), &Vec::new());
    assert!(v.is_empty());
}

#[test]
fn title_with_author_is_not_repeated() {
    let v = variations_from_parts(
        "Dune",
        Some("Dune Frank Herbert"),
        None,
        Some("Frank Herbert"),
        &Vec::new(),
        &Vec::new(),
    );
    assert_eq!(v, owned(&["dune", "dune frank herbert"]));
}

#[test]
fn chapter_paths_are_read_by_component() {
    let paths = owned(&["Naruto Shippuden/Chapter One.cbz"]);
    let v = generate_variations("", None, None, None, Some(&paths));
    assert_eq!(v, owned(&["naruto shippuden", "chapter one"]));
}

#[test]
fn western_titles_are_recognised() {
    assert!(is_likely_western_book("Game of Thrones", None));
    assert!(is_likely_western_book("GOT", None));
    assert!(is_likely_western_book("The Beginning After the End", None));
    assert!(!is_likely_western_book("One Piece", None));
    assert!(!is_likely_western_book("Lord of the Rings 2", None));
    assert!(!is_likely_western_book("Dragon", None));
    assert!(!is_likely_western_book("", None));
}

#[test]
fn western_path_components_are_recognised() {
    assert!(is_likely_western_book("x", Some("books/Lord of the Rings/file.epub")));
    assert!(!is_likely_western_book("x", Some("manga/One Piece/file.cbz")));
    assert!(is_likely_western_from("x", &owned(&["manga", "lotr"])));
    assert!(!is_likely_western_from("x", &owned(&["manga", "naruto"])));
}

#[test]
fn path_gives_base_name_and_parent_directory() {
    let v = generate_variations(
        "Berserk",
        Some("library/Dark Horse/Berserk Deluxe.cbz"),
        None,
        None,
        None,
    );
    assert_eq!(
        v,
        owned(&["berserk", "berserk deluxe", "dark horse", "dark horse berserk deluxe"])
    );
}

#[test]
fn path_parts_are_base_name_and_parent_name() {
    assert_eq!(
        path_parts(Some("library/Dark Horse/Berserk Deluxe.cbz")),
        (Some("Berserk Deluxe".to_string()), Some("Dark Horse".to_string()))
    );
    assert_eq!(path_parts(Some("file.cbz")), (Some("file".to_string()), None));
    assert_eq!(path_parts(Some("dir/archive.tar.gz")).0, Some("archive.tar".to_string()));
    assert_eq!(path_parts(Some("")), (None, None));
    assert_eq!(path_parts(None), (None, None));
}

#[test]
fn normal_components_are_the_named_ones() {
    assert_eq!(normal_components(Some("/a/./b/../c.txt")), owned(&["a", "b", "c.txt"]));
    assert_eq!(normal_components(Some("One Piece/Vol 01.cbz")), owned(&["One Piece", "Vol 01.cbz"]));
    assert!(normal_components(Some("")).is_empty());
    assert!(normal_components(None).is_empty());
}

#[test]
fn chapter_path_stems_are_base_names_of_components() {
    let paths = owned(&["Vol 1/Chapter One.cbz", "x/y.tar.gz", ".hidden"]);
    assert_eq!(
        chapter_path_stems(Some(&paths)),
        owned(&["Vol 1", "Chapter One", "x", "y.tar", ".hidden"])
    );
    assert!(chapter_path_stems(Some(&[])).is_empty());
    assert!(chapter_path_stems(None).is_empty());
}

#[test]
fn only_the_first_twenty_chapter_paths_count() {
    let mut paths: Vec<String> = Vec::new();
    for i in 0..25 {
        paths.push(format!("p{i}.cbz"));
    }
    let stems = chapter_path_stems(Some(&paths));
    assert_eq!(stems.len(), 20);
    assert_eq!(stems[0], "p0");
    assert_eq!(stems[19], "p19");
}

fn main_title(s: &str) -> String {
    title_before_colon_or_dash(&s.chars().collect()).into_iter().collect()
}

#[test]
fn main_title_ends_at_the_first_separator() {
    assert_eq!(main_title("a - b: c"), "a");
    assert_eq!(main_title("a: b - c"), "a");
    assert_eq!(main_title("One Piece – Romance Dawn: East Blue"), "One Piece");
    assert_eq!(main_title("Dune—Messiah"), "Dune");
    assert_eq!(main_title("Spider-Man: Blue"), "Spider");
}

#[test]
fn main_title_needs_something_before_the_separator() {
    assert_eq!(main_title("- a: b"), "- a");
    assert_eq!(main_title("  : a"), "  : a");
    assert_eq!(main_title(":"), ":");
    assert_eq!(main_title("no separator"), "no separator");
    assert_eq!(main_title(""), "");
}
