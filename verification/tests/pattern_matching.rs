use git_rebrand::pattern::{classify, matches_lowered, matches_pattern, PatternKind};
use git_rebrand::text::{chars_of, contains_chars, contains_str, has_at_sign};

fn patterns(list: &[&str]) -> Vec<String> {
    list.iter().map(|p| p.to_string()).collect()
}

#[test]
fn first_pattern_in_list_order_wins() {
    let list = patterns(&["old", "old@example.com"]);
    let found = matches_pattern("Old Author", "old@example.com", &list);
    assert_eq!(found, Some("old".to_string()));
}

#[test]
fn later_pattern_wins_only_when_earlier_ones_miss() {
    let list = patterns(&["old", "old@example.com"]);
    // "old" holds no '@', so it is tried on the name alone.
    let found = matches_pattern("Someone Else", "old@example.com", &list);
    assert_eq!(found, Some("old@example.com".to_string()));
}

#[test]
fn order_of_the_list_decides_not_specificity() {
    let broad_first = patterns(&["@example.com", "old@example.com"]);
    let exact_first = patterns(&["old@example.com", "@example.com"]);
    assert_eq!(
        matches_pattern("Old Author", "old@example.com", &broad_first),
        Some("@example.com".to_string())
    );
    assert_eq!(
        matches_pattern("Old Author", "old@example.com", &exact_first),
        Some("old@example.com".to_string())
    );
}

#[test]
fn matching_ignores_case_of_the_name() {
    let list = patterns(&["john"]);
    assert_eq!(matches_pattern("John Doe", "jd@example.com", &list), Some("john".to_string()));
}

#[test]
fn matching_ignores_case_of_the_pattern() {
    let list = patterns(&["JOHN"]);
    // The pattern comes back as the list holds it, not in lower case.
    assert_eq!(matches_pattern("john doe", "jd@example.com", &list), Some("JOHN".to_string()));
}

#[test]
fn matching_ignores_case_of_the_email() {
    let list = patterns(&["@OldCompany.com"]);
    assert_eq!(
        matches_pattern("Someone", "Test@OLDCOMPANY.COM", &list),
        Some("@OldCompany.com".to_string())
    );
}

#[test]
fn matching_ignores_case_beyond_ascii() {
    let list = patterns(&["ärger"]);
    assert_eq!(matches_pattern("Herr ÄRGER", "a@example.com", &list), Some("ärger".to_string()));
}

#[test]
fn email_pattern_is_not_tried_on_the_name() {
    let list = patterns(&["bob@"]);
    assert_eq!(matches_pattern("bob@ the builder", "robert@example.com", &list), None);
}

#[test]
fn name_pattern_is_not_tried_on_the_email() {
    let list = patterns(&["alice"]);
    assert_eq!(matches_pattern("Bob", "alice@example.com", &list), None);
}

#[test]
fn match_is_by_substring_not_by_whole_text() {
    let list = patterns(&["hn do"]);
    assert_eq!(matches_pattern("John Doe", "jd@example.com", &list), Some("hn do".to_string()));
}

#[test]
fn no_pattern_matches() {
    let list = patterns(&["nonexistent@example.com", "nobody"]);
    assert_eq!(matches_pattern("Different Author", "different@example.com", &list), None);
}

#[test]
fn empty_list_matches_nothing() {
    let list: Vec<String> = Vec::new();
    assert_eq!(matches_pattern("John Doe", "jd@example.com", &list), None);
}

#[test]
fn empty_pattern_matches_every_name() {
    let list = patterns(&[""]);
    assert_eq!(matches_pattern("", "", &list), Some(String::new()));
    assert_eq!(matches_pattern("John", "jd@example.com", &list), Some(String::new()));
}

#[test]
fn lowered_match_on_given_values() {
    assert!(matches_lowered("john doe", "jd@example.com", "john"));
    assert!(matches_lowered("john doe", "jd@example.com", "@example"));
    assert!(!matches_lowered("john doe", "jd@example.com", "jd"));
    assert!(!matches_lowered("john doe", "jd@example.com", "john@"));
    // Nothing is put in lower case here: that is the caller's part.
    assert!(!matches_lowered("John Doe", "jd@example.com", "john"));
}

#[test]
fn lowered_match_needs_consecutive_characters() {
    assert!(!matches_lowered("john doe", "jd@example.com", "jhn"));
    assert!(matches_lowered("john doe", "jd@example.com", "n d"));
    assert!(!matches_lowered("jo", "jd@example.com", "john"));
}

#[test]
fn at_sign_is_found_anywhere() {
    assert!(has_at_sign("@"));
    assert!(has_at_sign("a@b"));
    assert!(has_at_sign("trailing@"));
    assert!(!has_at_sign("plain name"));
    assert!(!has_at_sign(""));
}

#[test]
fn pattern_with_at_sign_is_an_email_pattern() {
    assert_eq!(classify("old@example.com"), PatternKind::Email);
    assert_eq!(classify("@oldcompany.com"), PatternKind::Email);
    assert_eq!(classify("@"), PatternKind::Email);
    assert_eq!(classify("old author"), PatternKind::Name);
    assert_eq!(classify(""), PatternKind::Name);
}

#[test]
fn characters_are_read_one_by_one() {
    assert_eq!(chars_of("a@b"), vec!['a', '@', 'b']);
    assert_eq!(chars_of("ärger"), vec!['ä', 'r', 'g', 'e', 'r']);
    assert_eq!(chars_of(""), Vec::<char>::new());
}

#[test]
fn substring_is_found_at_every_position() {
    assert!(contains_str("john doe", "john"));
    assert!(contains_str("john doe", "n d"));
    assert!(contains_str("john doe", "doe"));
    assert!(contains_str("john doe", "john doe"));
    assert!(contains_str("john doe", "e"));
    assert!(!contains_str("john doe", "john doe "));
    assert!(!contains_str("john doe", "jon"));
    assert!(!contains_str("john doe", "doej"));
    assert!(!contains_str("aab", "abb"));
    assert!(contains_str("aaab", "aab"));
}

#[test]
fn empty_text_is_a_substring_of_every_text() {
    assert!(contains_str("john", ""));
    assert!(contains_str("", ""));
    assert!(!contains_str("", "j"));
}

#[test]
fn substring_is_compared_by_characters() {
    assert!(contains_str("herr ärger", "ärg"));
    assert!(contains_str("日本語のテキスト", "語の"));
    assert!(!contains_str("herr arger", "ärg"));
    assert!(contains_chars(&vec!['a', 'b', 'c'], &vec!['b', 'c']));
    assert!(!contains_chars(&vec!['a', 'b', 'c'], &vec!['c', 'b']));
}

#[test]
fn substring_search_agrees_with_the_standard_library() {
    let texts = ["", "a", "ab", "aab", "abab", "john doe", "jd@example.com", "ää@ö", "@"];
    for hay in texts {
        for needle in texts {
            assert_eq!(contains_str(hay, needle), hay.contains(needle), "{:?} in {:?}", needle, hay);
        }
    }
}
