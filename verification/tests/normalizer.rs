use readito::{contains_japanese, normalize, settled};

#[test]
fn test_normalize() {
    assert_eq!(normalize("São Paulo"), "sao paulo");
    assert_eq!(normalize("Harry Potter"), "harry potter");
    assert_eq!(normalize("O Senhor: 2ª ed."), "o senhor");
    assert_eq!(normalize("Volume 1"), "");
    assert_eq!(normalize("revised edition"), "");
}

#[test]
fn normalize_empty_is_empty() {
    assert_eq!(normalize(""), "");
    assert_eq!(normalize("   \t "), "");
    assert_eq!(normalize("?!"), "");
}

#[test]
fn normalize_strips_edition_phrases() {
    assert_eq!(normalize("Dune 2nd edition"), "dune");
    assert_eq!(normalize("Dom Casmurro 3ª edição"), "dom casmurro");
    assert_eq!(normalize("Berserk ed. 3"), "berserk");
    assert_eq!(normalize("Berserk vol. 2"), "berserk");
    assert_eq!(normalize("One Piece Vol 01"), "one piece");
}

#[test]
fn normalize_collapses_whitespace_and_punctuation() {
    assert_eq!(normalize("  The   Hobbit -- (There & Back)\n"), "the hobbit there back");
    assert_eq!(normalize("CAFÉ"), "cafe");
}

#[test]
fn normalize_twice_is_normalize_once() {
    for s in ["São Paulo", "The Hobbit: An Unexpected Journey", "  a  b  ", "Ação & Reação!"] {
        let once = normalize(s);
        assert_eq!(normalize(&once), once);
    }
}

#[test]
fn normalize_is_not_stable_where_punctuation_hides_a_volume() {
    assert_eq!(normalize("vol-1"), "vol 1");
    assert_eq!(normalize("vol 1"), "");
}

#[test]
fn contains_japanese_detects_scripts() {
    assert!(contains_japanese("ワンピース"));
    assert!(contains_japanese("ひらがな"));
    assert!(contains_japanese("進撃の巨人"));
    assert!(contains_japanese("One Piece 海"));
    assert!(!contains_japanese("One Piece"));
    assert!(!contains_japanese(""));
    assert!(!contains_japanese("한국어"));
}

#[test]
fn settled_forms_are_their_own_canonical_form() {
    for s in ["São Paulo", "The Hobbit: An Unexpected Journey", "ΟΔΥΣΣΕΙΑ", "İstanbul", "vol-1", "a-2nd-edition"] {
        let once = normalize(s);
        if settled(&once) {
            assert_eq!(normalize(&once), once, "{s}");
        } else {
            assert_ne!(normalize(&once), once, "{s}");
        }
    }
    assert!(settled("sao paulo"));
    assert!(settled(""));
    assert!(!settled("Sao Paulo"));
    assert!(!settled("vol 1"));
    assert!(settled(&normalize("The Hobbit")));
    assert!(!settled(&normalize("vol-1")));
}

#[test]
fn accented_latin_letters_are_folded_to_their_base() {
    assert_eq!(normalize("Wan Pīsu"), "wan pisu");
    assert_eq!(normalize("Łódź Žižek Çağrı Ångström"), "lodz zizek cagri angstrom");
    assert_eq!(normalize("Søren Ðorđe Ħal Ŧ"), "soren ðorde hal t");
    assert_eq!(normalize("ÀÁÂÃÄÅ ÈÉÊË ÌÍÎÏ ÒÓÔÕÖØ ÙÚÛÜ ÝŸ Ñ"), "aaaaaa eeee iiii oooooo uuuu yy n");
    assert_eq!(normalize("Ōkami Ğ ő ű ŵ ŷ ĵ ķ ŕ ś ţ"), "okami g o u w y j k r s t");
    assert_eq!(normalize("Æsir œuvre ß"), "æsir œuvre ß");
    assert_eq!(normalize("ı"), "i");
}
