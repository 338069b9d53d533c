use anime_grabber::keywords::{contains_any, match_exclude_keywords, split_whitespace};

#[test]
fn empty_exclusion_never_rejects() {
    assert!(!match_exclude_keywords("Show A S01E01", ""));
    assert!(!match_exclude_keywords("", ""));
}

#[test]
fn blank_exclusion_never_rejects() {
    assert!(!match_exclude_keywords("Show A S01E01", "   "));
    assert!(!match_exclude_keywords("Show A S01E01", "\t\n"));
}

#[test]
fn keyword_matches_whatever_its_case() {
    assert!(match_exclude_keywords("Show B [RAW]", "RAW"));
    assert!(match_exclude_keywords("Show B [RAW]", "raw"));
    assert!(match_exclude_keywords("Show B [raw]", "RAW"));
    assert!(match_exclude_keywords("Show B [Raw]", "rAW"));
}

#[test]
fn keyword_matches_inside_a_word() {
    assert!(match_exclude_keywords("Show B Drawing", "raw"));
}

#[test]
fn any_one_keyword_is_enough() {
    assert!(match_exclude_keywords("Show C 720p", "RAW 720p HEVC"));
    assert!(match_exclude_keywords("Show C HEVC", "RAW 720p HEVC"));
    assert!(match_exclude_keywords("Show C HEVC", "  RAW\t720p \n HEVC  "));
}

#[test]
fn no_keyword_in_title_does_not_reject() {
    assert!(!match_exclude_keywords("Show C 1080p", "RAW 720p HEVC"));
}

#[test]
fn each_word_counts_alone() {
    assert!(match_exclude_keywords("York 01", "new york"));
    assert!(!match_exclude_keywords("Show A B", "AB"));
    assert!(match_exclude_keywords("Show 1234", "12\u{a0}34"));
    assert!(!match_exclude_keywords("Show 1 2 3 4", "12\u{a0}34"));
}

#[test]
fn case_is_folded_beyond_ascii() {
    assert!(match_exclude_keywords("ÉCOLE 01", "école"));
    assert!(match_exclude_keywords("école 01", "ÉCOLE"));
    assert!(!match_exclude_keywords("ecole 01", "école"));
}

#[test]
fn split_whitespace_gives_the_words_in_order() {
    assert_eq!(split_whitespace("RAW 720p HEVC"), vec!["RAW", "720p", "HEVC"]);
    assert_eq!(split_whitespace("  RAW\t720p \n HEVC  "), vec!["RAW", "720p", "HEVC"]);
    assert_eq!(split_whitespace("one"), vec!["one"]);
}

#[test]
fn split_whitespace_of_blank_text_is_empty() {
    assert!(split_whitespace("").is_empty());
    assert!(split_whitespace(" \t\r\n").is_empty());
}

#[test]
fn split_whitespace_agrees_with_the_standard_library() {
    let texts = [
        "",
        " ",
        "a",
        " a",
        "a ",
        "a b",
        "a  b",
        "\u{3000}東京\u{3000}レイヴンズ\u{2003}x",
        "no\u{a0}break",
        "tab\tnew\nline\u{b}vt\u{c}ff\rcr",
        "\u{85}next\u{1680}ogham\u{2028}ls\u{2029}ps\u{202f}nn\u{205f}mm",
        "zero\u{200b}width",
    ];
    for text in texts {
        let expected: Vec<String> = text.split_whitespace().map(String::from).collect();
        assert_eq!(split_whitespace(text), expected);
    }
}

#[test]
fn contains_any_finds_a_needle_anywhere() {
    let needles = vec!["raw".to_string(), "720p".to_string()];
    assert!(contains_any("raw show", &needles));
    assert!(contains_any("show [raw]", &needles));
    assert!(contains_any("show 720p", &needles));
    assert!(!contains_any("show 1080p", &needles));
    assert!(!contains_any("ra w 72 0p", &needles));
    assert!(!contains_any("", &needles));
}

#[test]
fn contains_any_minds_letter_case() {
    assert!(!contains_any("show [RAW]", &vec!["raw".to_string()]));
    assert!(contains_any("show [RAW]", &vec!["RAW".to_string()]));
}

#[test]
fn contains_any_of_no_needles_is_false() {
    assert!(!contains_any("show", &vec![]));
    assert!(!contains_any("", &vec![]));
}

#[test]
fn empty_needle_is_in_every_text() {
    assert!(contains_any("show", &vec![String::new()]));
    assert!(contains_any("", &vec![String::new()]));
}

#[test]
fn contains_any_agrees_with_the_standard_library() {
    let haystacks = ["", "a", "abc", "ababc", "aab", "東京レイヴンズ", "e\u{301}x", "\u{e9}x"];
    let needles =
        ["", "a", "bc", "abc", "abd", "ab", "abcd", "京レ", "ヴンズ!", "\u{e9}", "e", "\u{301}"];
    for haystack in haystacks {
        for needle in needles {
            assert_eq!(
                contains_any(haystack, &vec![needle.to_string()]),
                haystack.contains(needle),
                "{needle:?} in {haystack:?}"
            );
        }
    }
}
