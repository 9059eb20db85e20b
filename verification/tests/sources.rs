use readito::sources::anilist::{
    AniListCoverImage, AniListData, AniListFuzzyDate, AniListMedia, AniListPage, AniListResponse,
    AniListStudio, AniListStudios, AniListTitle,
};
use readito::sources::jikan::{
    JikanDateRange, JikanImageUrls, JikanImages, JikanItem, JikanResponse,
};
use readito::sources::kitsu::{KitsuAttributes, KitsuItem, KitsuPosterImage, KitsuResponse};
use readito::sources::loc::{LocItem, LocResponse};
use readito::sources::mapping::{decimal, strip_html, trim_start_matches, year_from_date};
use readito::sources::open_library::{OpenLibraryDoc, OpenLibraryResponse};
use readito::{
    all_sources, AniListSource, JikanSource, KitsuSource, LocSource, MediaType, MetadataSource,
    OpenLibrarySource, SourceId,
};

fn s(text: &str) -> Option<String> {
    Some(text.to_string())
}

#[test]
fn searches_ask_books_and_manga_but_not_anime() {
    assert_eq!(
        all_sources(),
        vec![SourceId::OpenLibrary, SourceId::Loc, SourceId::AniList, SourceId::Jikan]
    );
}

#[test]
fn adapters_describe_themselves() {
    assert_eq!(OpenLibrarySource.name(), "open_library");
    assert_eq!(LocSource.name(), "loc");
    assert_eq!(AniListSource.name(), "anilist");
    assert_eq!(JikanSource.name(), "jikan");
    assert_eq!(KitsuSource.name(), "kitsu");
    assert_eq!(OpenLibrarySource.media_type(), MediaType::Book);
    assert_eq!(LocSource.media_type(), MediaType::Book);
    assert_eq!(AniListSource.media_type(), MediaType::Manga);
    assert_eq!(JikanSource.media_type(), MediaType::Manga);
    assert_eq!(KitsuSource.media_type(), MediaType::Anime);
    assert_eq!(OpenLibrarySource.timeout_secs(), 8);
    assert_eq!(KitsuSource.timeout_secs(), 8);
}

#[test]
fn queries_are_percent_encoded() {
    assert_eq!(
        OpenLibrarySource.endpoint("one piece"),
        "https://openlibrary.org/search.json?q=one%20piece"
    );
    assert_eq!(
        LocSource.endpoint("a&b=c"),
        "https://www.loc.gov/books/?q=a%26b%3Dc&fo=json&c=10"
    );
    assert_eq!(
        JikanSource.endpoint("são-paulo_1.~"),
        "https://api.jikan.moe/v4/manga?q=s%C3%A3o-paulo_1.~&limit=5"
    );
    assert_eq!(
        JikanSource::search_endpoint("x y", "https://api.jikan.moe/v4/anime"),
        "https://api.jikan.moe/v4/anime?q=x%20y&limit=5"
    );
    assert_eq!(
        KitsuSource.endpoint("進"),
        "https://kitsu.io/api/edge/anime?filter[text]=%E9%80%B2"
    );
    assert_eq!(AniListSource.endpoint("anything"), "https://graphql.anilist.co");
}

#[test]
fn numbers_are_written_in_decimal() {
    let text = |n: i64| decimal(n).into_iter().collect::<String>();
    assert_eq!(text(0), "0");
    assert_eq!(text(7), "7");
    assert_eq!(text(10), "10");
    assert_eq!(text(8231856), "8231856");
    assert_eq!(text(-42), "-42");
    assert_eq!(text(i64::MAX), "9223372036854775807");
    assert_eq!(text(i64::MIN), "-9223372036854775808");
}

#[test]
fn years_are_read_from_the_first_four_characters() {
    assert_eq!(year_from_date("1997-07-22"), Some(1997));
    assert_eq!(year_from_date("2001"), Some(2001));
    assert_eq!(year_from_date("86"), Some(86));
    assert_eq!(year_from_date("0099-01"), Some(99));
    assert_eq!(year_from_date("-123"), Some(-123));
    assert_eq!(year_from_date("+123"), Some(123));
    assert_eq!(year_from_date(""), None);
    assert_eq!(year_from_date("-"), None);
    assert_eq!(year_from_date("c. 1900"), None);
    assert_eq!(year_from_date("19a7"), None);
    assert_eq!(year_from_date(" 1997"), None);
}

#[test]
fn markup_is_stripped_from_descriptions() {
    assert_eq!(strip_html("<p>Hello <b>world</b></p>"), "Hello world");
    assert_eq!(strip_html("  a\\nb<br>c  "), "a bc");
    assert_eq!(strip_html("<i>only markup</i"), "only markup");
    assert_eq!(strip_html("<br><br>"), "");
    assert_eq!(strip_html("1 > 0 < 2"), "1  0");
}

#[test]
fn leading_matches_are_trimmed() {
    assert_eq!(trim_start_matches("/works/OL27448W", "/works/"), "OL27448W");
    assert_eq!(trim_start_matches("/works//works/x", "/works/"), "x");
    assert_eq!(trim_start_matches("OL1W", "/works/"), "OL1W");
    assert_eq!(trim_start_matches("", "/works/"), "");
}

#[test]
fn open_library_maps_works() {
    let response = OpenLibraryResponse {
        docs: Some(vec![
            OpenLibraryDoc {
                title: s("  Dune "),
                author_name: Some(vec!["Frank Herbert".to_string(), "B. Herbert".to_string()]),
                first_publish_year: Some(1965),
                cover_i: Some(8231856),
                key: s("/works/OL893415W"),
            },
            OpenLibraryDoc {
                title: s("   "),
                author_name: None,
                first_publish_year: None,
                cover_i: None,
                key: None,
            },
            OpenLibraryDoc {
                title: None,
                author_name: None,
                first_publish_year: None,
                cover_i: None,
                key: None,
            },
            OpenLibraryDoc {
                title: s("Bare"),
                author_name: Some(Vec::new()),
                first_publish_year: None,
                cover_i: None,
                key: None,
            },
        ]),
    };
    let out = OpenLibrarySource::candidates(Some(response));
    assert_eq!(out.len(), 2);
    let c = &out[0];
    assert_eq!(c.source, "open_library");
    assert_eq!(c.source_id, "OL893415W");
    assert_eq!(c.media_type, MediaType::Book);
    assert_eq!(c.title, "Dune");
    assert_eq!(c.title_alternatives, vec!["Dune".to_string()]);
    assert_eq!(c.author.as_deref(), Some("Frank Herbert, B. Herbert"));
    assert_eq!(c.description, None);
    assert_eq!(
        c.cover_url.as_deref(),
        Some("https://covers.openlibrary.org/b/id/8231856-L.jpg")
    );
    assert_eq!(c.year, Some(1965));
    assert_eq!(c.language, None);
    let bare = &out[1];
    assert_eq!(bare.title, "Bare");
    assert_eq!(bare.source_id, "");
    assert_eq!(bare.author, None);
    assert_eq!(bare.cover_url, None);
}

#[test]
fn missing_answers_give_no_candidates() {
    assert!(OpenLibrarySource::candidates(None).is_empty());
    assert!(OpenLibrarySource::candidates(Some(OpenLibraryResponse { docs: None })).is_empty());
    assert!(LocSource::candidates(None).is_empty());
    assert!(LocSource::candidates(Some(LocResponse { results: Some(Vec::new()) })).is_empty());
    assert!(JikanSource::candidates(None, MediaType::Manga).is_empty());
    assert!(KitsuSource::candidates(None).is_empty());
    assert!(AniListSource::candidates(None, MediaType::Manga).is_empty());
    assert!(AniListSource::candidates(
        Some(AniListResponse { data: Some(AniListData { page: None }) }),
        MediaType::Manga
    )
    .is_empty());
}

#[test]
fn loc_maps_items() {
    let response = LocResponse {
        results: Some(vec![
            LocItem { id: s("http://lccn.loc.gov/1"), title: s("Moby Dick "), date_str: s("1851-10-18") },
            LocItem { id: None, title: s("Undated"), date_str: s("n.d.") },
            LocItem { id: s("x"), title: s(""), date_str: None },
        ]),
    };
    let out = LocSource::candidates(Some(response));
    assert_eq!(out.len(), 2);
    assert_eq!(out[0].source, "loc");
    assert_eq!(out[0].source_id, "http://lccn.loc.gov/1");
    assert_eq!(out[0].title, "Moby Dick");
    assert_eq!(out[0].title_alternatives, vec!["Moby Dick".to_string()]);
    assert_eq!(out[0].year, Some(1851));
    assert_eq!(out[0].media_type, MediaType::Book);
    assert_eq!(out[1].source_id, "");
    assert_eq!(out[1].year, None);
}

#[test]
fn jikan_maps_items() {
    let response = JikanResponse {
        data: Some(vec![JikanItem {
            mal_id: Some(13),
            title: s(" One Piece"),
            title_english: s("One Piece"),
            title_japanese: s("ワンピース "),
            synopsis: s(" Pirates. "),
            images: Some(JikanImages {
                jpg: Some(JikanImageUrls { image_url: s("small"), large_image_url: None }),
            }),
            published: Some(JikanDateRange { from: s("1997-07-22T00:00:00+00:00") }),
        }, JikanItem {
            mal_id: None,
            title: s("Blank synopsis"),
            title_english: s("  "),
            title_japanese: None,
            synopsis: s("   "),
            images: Some(JikanImages {
                jpg: Some(JikanImageUrls { image_url: s("small"), large_image_url: s("large") }),
            }),
            published: None,
        }]),
    };
    let out = JikanSource::candidates(Some(response), MediaType::Manga);
    assert_eq!(out.len(), 2);
    assert_eq!(out[0].source, "jikan");
    assert_eq!(out[0].source_id, "13");
    assert_eq!(out[0].media_type, MediaType::Manga);
    assert_eq!(out[0].title, "One Piece");
    assert_eq!(
        out[0].title_alternatives,
        vec!["One Piece".to_string(), "ワンピース".to_string()]
    );
    assert_eq!(out[0].description.as_deref(), Some(" Pirates. "));
    assert_eq!(out[0].cover_url.as_deref(), Some("small"));
    assert_eq!(out[0].year, Some(1997));
    assert_eq!(out[1].source_id, "");
    assert_eq!(out[1].title_alternatives, vec!["Blank synopsis".to_string()]);
    assert_eq!(out[1].description, None);
    assert_eq!(out[1].cover_url.as_deref(), Some("large"));
    assert_eq!(out[1].year, None);
}

#[test]
fn kitsu_maps_items() {
    let response = KitsuResponse {
        data: Some(vec![
            KitsuItem {
                id: s("12"),
                attrs: Some(KitsuAttributes {
                    canonical_title: s("One Piece"),
                    titles: vec!["One Piece".to_string(), " ".to_string(), "ONE PIECE".to_string()],
                    synopsis: s("Pirates."),
                    poster_image: Some(KitsuPosterImage { original: None, large: s("large") }),
                    start_date: s("1999-10-20"),
                }),
            },
            KitsuItem { id: s("13"), attrs: None },
        ]),
    };
    let out = KitsuSource::candidates(Some(response));
    assert_eq!(out.len(), 1);
    assert_eq!(out[0].source, "kitsu");
    assert_eq!(out[0].source_id, "12");
    assert_eq!(out[0].media_type, MediaType::Anime);
    assert_eq!(
        out[0].title_alternatives,
        vec!["One Piece".to_string(), "ONE PIECE".to_string()]
    );
    assert_eq!(out[0].cover_url.as_deref(), Some("large"));
    assert_eq!(out[0].year, Some(1999));
    assert_eq!(out[0].description.as_deref(), Some("Pirates."));
}

fn anilist_media(title: Option<AniListTitle>) -> AniListMedia {
    AniListMedia {
        id: Some(30013),
        title,
        cover_image: Some(AniListCoverImage { large: s("cover") }),
        description: s("<i>Gol D. Roger</i><br>was known"),
        start_date: Some(AniListFuzzyDate { year: Some(1997) }),
        studios: Some(AniListStudios {
            nodes: Some(vec![
                AniListStudio { name: s("Shueisha") },
                AniListStudio { name: s("Other") },
            ]),
        }),
    }
}

#[test]
fn anilist_maps_media() {
    let response = AniListResponse {
        data: Some(AniListData {
            page: Some(AniListPage {
                media: Some(vec![
                    anilist_media(Some(AniListTitle {
                        romaji: s("ONE PIECE"),
                        english: s(" One Piece "),
                        native: s("ONE PIECE"),
                    })),
                    anilist_media(None),
                    anilist_media(Some(AniListTitle {
                        romaji: s("  "),
                        english: s("Hidden"),
                        native: None,
                    })),
                    anilist_media(Some(AniListTitle {
                        romaji: None,
                        english: None,
                        native: s("進撃の巨人"),
                    })),
                ]),
            }),
        }),
    };
    let out = AniListSource::candidates(Some(response), MediaType::Manga);
    assert_eq!(out.len(), 2);
    assert_eq!(out[0].source, "anilist");
    assert_eq!(out[0].source_id, "30013");
    assert_eq!(out[0].media_type, MediaType::Manga);
    assert_eq!(out[0].title, "ONE PIECE");
    assert_eq!(
        out[0].title_alternatives,
        vec!["ONE PIECE".to_string(), "One Piece".to_string()]
    );
    assert_eq!(out[0].author.as_deref(), Some("Shueisha"));
    assert_eq!(out[0].description.as_deref(), Some("Gol D. Rogerwas known"));
    assert_eq!(out[0].cover_url.as_deref(), Some("cover"));
    assert_eq!(out[0].year, Some(1997));
    assert_eq!(out[1].title, "進撃の巨人");
    assert_eq!(out[1].title_alternatives, vec!["進撃の巨人".to_string()]);
}
