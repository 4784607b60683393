use minigrep::matching::contains;

#[test]
fn contains_finds_a_run_anywhere() {
    assert!(contains("tap colts", "tap"));
    assert!(contains("colts tap", "tap"));
    assert!(contains("a tap b", "tap"));
    assert!(contains("tap", "tap"));
}

#[test]
fn contains_rejects_what_is_not_there() {
    assert!(!contains("c", "b"));
    assert!(!contains("abc", "Abc"));
    assert!(!contains("ta p", "tap"));
    assert!(!contains("ta", "tap"));
    assert!(!contains("", "tap"));
}

#[test]
fn contains_finds_the_empty_needle_everywhere() {
    assert!(contains("abc", ""));
    assert!(contains("", ""));
}

#[test]
fn contains_restarts_after_a_partial_match() {
    assert!(contains("aaab", "aab"));
    assert!(contains("abababc", "ababc"));
    assert!(!contains("ababab", "ababc"));
}

#[test]
fn contains_matches_whole_characters() {
    assert!(contains("café", "fé"));
    assert!(contains("日本語", "本"));
    assert!(!contains("\u{e9}", "\u{a9}"));
    assert!(!contains("\u{e9}", "\u{e8}"));
    assert!(!contains("\u{20ac}", "\u{82}"));
}

#[test]
fn contains_agrees_with_the_standard_library() {
    let texts = ["", "a", "ab", "ba", "aab", "abab", "é", "aé", "éa", "\n", "a\nb"];

    for hay in texts {
        for needle in texts {
            assert_eq!(hay.contains(needle), contains(hay, needle), "{:?} in {:?}", needle, hay);
        }
    }
}
