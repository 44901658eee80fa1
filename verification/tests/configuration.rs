use git_rebrand::backup::{
    backup_branch_name, backup_request, backup_second, check_timestamp, timestamp_layout,
    LAST_STAMP_SECOND,
};
use git_rebrand::config::{
    check_email_pattern, collect_patterns, email_verdict, patterns_from_trimmed, validate_email,
    Config, EMAIL_PATTERN,
};
use git_rebrand::error::{prefixed, GitRebrandError};
use git_rebrand::text::text_or_empty;
use git_rebrand::default_backup;
use std::path::PathBuf;

fn lines(list: &[&str]) -> Vec<String> {
    list.iter().map(|l| l.to_string()).collect()
}

fn config_with_email(email: &str) -> Config {
    Config {
        new_author_name: "New Author".to_string(),
        new_author_email: email.to_string(),
        patterns: vec!["old@example.com".to_string(), "Old Name".to_string()],
        repo_path: PathBuf::new(),
        create_backup: true,
    }
}

#[test]
fn backup_is_on_by_default() {
    assert!(default_backup());
}

#[test]
fn valid_email_is_accepted() {
    assert!(validate_email("new@example.com").is_ok());
    assert!(validate_email("first.last+tag@sub-domain.example.org").is_ok());
    assert!(validate_email("a_b%c@x.io").is_ok());
}

#[test]
fn invalid_email_is_refused() {
    for email in [
        "invalid-email",
        "",
        "@example.com",
        "new@",
        "new@example",
        "new@example.c",
        "new@@example.com",
        "new@exa mple.com",
        "new@example.com\n",
        " new@example.com",
        "new@example.c0m",
    ] {
        match validate_email(email) {
            Err(GitRebrandError::InvalidConfig(reason)) => {
                assert_eq!(reason, format!("Invalid email format: {}", email));
            }
            other => panic!("expected InvalidConfig for {:?}, got {:?}", email, other),
        }
    }
}

#[test]
fn email_pattern_is_the_documented_shape() {
    assert_eq!(EMAIL_PATTERN, r"^[a-zA-Z0-9._%+-]+@[a-zA-Z0-9.-]+\.[a-zA-Z]{2,}$");
}

#[test]
fn email_verdict_follows_the_match() {
    assert!(email_verdict("new@example.com", Some(true)).is_ok());
    match email_verdict("invalid-email", Some(false)) {
        Err(GitRebrandError::InvalidConfig(reason)) => {
            assert_eq!(reason, "Invalid email format: invalid-email");
        }
        other => panic!("expected InvalidConfig, got {:?}", other),
    }
    match email_verdict("new@example.com", None) {
        Err(GitRebrandError::InvalidConfig(reason)) => {
            assert_eq!(reason, "Failed to compile email regex");
        }
        other => panic!("expected InvalidConfig, got {:?}", other),
    }
}

#[test]
fn config_with_valid_email_passes() {
    let config = config_with_email("new@example.com");
    assert!(config.validate().is_ok());
    assert_eq!(config.new_author_name, "New Author");
    assert_eq!(config.new_author_email, "new@example.com");
    assert_eq!(config.patterns.len(), 2);
}

#[test]
fn config_gives_the_new_identity() {
    let identity = config_with_email("new@example.com").identity();
    assert_eq!(identity.name, "New Author");
    assert_eq!(identity.email, "new@example.com");
}

#[test]
fn config_without_a_pattern_fails() {
    let mut config = config_with_email("new@example.com");
    config.patterns = Vec::new();
    match config.validate() {
        Err(GitRebrandError::InvalidConfig(reason)) => {
            assert_eq!(reason, "At least one pattern must be provided");
        }
        other => panic!("expected InvalidConfig, got {:?}", other),
    }
}

#[test]
fn bad_email_is_reported_before_a_missing_pattern_list() {
    let mut config = config_with_email("invalid-email");
    config.patterns = Vec::new();
    match config.validate() {
        Err(GitRebrandError::InvalidConfig(reason)) => {
            assert_eq!(reason, "Invalid email format: invalid-email");
        }
        other => panic!("expected InvalidConfig, got {:?}", other),
    }
}

#[test]
fn config_with_invalid_email_fails() {
    let result = config_with_email("invalid-email").validate();
    assert!(matches!(result, Err(GitRebrandError::InvalidConfig(_))));
}

#[test]
fn patterns_are_trimmed_and_empty_lines_dropped() {
    let typed = lines(&["  john.doe@example.com \n", "", "   ", "\tJohn Doe\r\n", "@olddomain.com"]);
    let patterns = collect_patterns(&typed).expect("three patterns");
    assert_eq!(patterns, lines(&["john.doe@example.com", "John Doe", "@olddomain.com"]));
}

#[test]
fn inner_whitespace_of_a_pattern_is_kept() {
    let patterns = collect_patterns(&lines(&[" John   Doe "])).expect("one pattern");
    assert_eq!(patterns, lines(&["John   Doe"]));
}

#[test]
fn no_pattern_is_refused() {
    for typed in [lines(&[]), lines(&[""]), lines(&["  ", "\n", "\t \r\n"])] {
        match collect_patterns(&typed) {
            Err(GitRebrandError::InvalidPattern(reason)) => {
                assert_eq!(reason, "At least one pattern must be provided");
            }
            other => panic!("expected InvalidPattern, got {:?}", other),
        }
    }
}

#[test]
fn trimmed_lines_are_only_filtered() {
    let patterns = patterns_from_trimmed(&lines(&["a", "", " b ", ""])).expect("two patterns");
    assert_eq!(patterns, lines(&["a", " b "]));
    assert!(matches!(
        patterns_from_trimmed(&lines(&["", ""])),
        Err(GitRebrandError::InvalidPattern(_))
    ));
}

#[test]
fn answers_make_a_configuration() {
    let config = Config::from_answers(
        "New Author".to_string(),
        "new@example.com".to_string(),
        &lines(&["old@example.com\n", "\n", "Old Name\n"]),
    )
    .expect("valid answers");
    assert_eq!(config.new_author_name, "New Author");
    assert_eq!(config.new_author_email, "new@example.com");
    assert_eq!(config.patterns, lines(&["old@example.com", "Old Name"]));
    assert_eq!(config.repo_path, PathBuf::new());
    assert!(config.create_backup);
}

#[test]
fn answers_with_a_bad_email_are_refused() {
    let outcome = Config::from_answers(
        "New Author".to_string(),
        "invalid-email".to_string(),
        &lines(&["old@example.com"]),
    );
    assert!(matches!(outcome, Err(GitRebrandError::InvalidConfig(_))));
}

#[test]
fn answers_without_a_pattern_are_refused() {
    let outcome = Config::from_answers(
        "New Author".to_string(),
        "new@example.com".to_string(),
        &lines(&["", "  "]),
    );
    assert!(matches!(outcome, Err(GitRebrandError::InvalidPattern(_))));
}

#[test]
fn bad_email_is_reported_before_missing_patterns() {
    let outcome =
        Config::from_answers("New Author".to_string(), "invalid-email".to_string(), &lines(&[]));
    assert!(matches!(outcome, Err(GitRebrandError::InvalidConfig(_))));
}

#[test]
fn backup_name_is_prefix_and_timestamp() {
    assert_eq!(backup_branch_name("20240131235959").expect("a timestamp"), "backup_20240131235959");
    assert_eq!(backup_branch_name("00000000000000").expect("a timestamp"), "backup_00000000000000");
}

#[test]
fn backup_name_needs_fourteen_digits() {
    for stamp in ["", "2024013123595", "202401312359590", "2024-01-31 23:5", "2024013123595x", "+2024013123595"]
    {
        assert!(!check_timestamp(stamp));
        assert!(matches!(backup_branch_name(stamp), Err(GitRebrandError::BackupFailed(_))));
    }
    assert!(check_timestamp("20240131235959"));
}

#[test]
fn backup_name_takes_ascii_digits_only() {
    // Fourteen characters that are digits, but not the decimal digits 0 to 9.
    assert!(!check_timestamp("٢٠٢٤٠١٣١٢٣٥٩٥٩"));
}

#[test]
fn each_failure_has_its_message() {
    assert_eq!(
        GitRebrandError::InvalidRepository("Repository is empty".to_string()).message(),
        "Invalid repository path: Repository is empty"
    );
    assert_eq!(
        GitRebrandError::InvalidPattern("At least one pattern must be provided".to_string())
            .message(),
        "Invalid author pattern: At least one pattern must be provided"
    );
    assert_eq!(
        GitRebrandError::NoMatchingCommits.message(),
        "No commits matched the provided patterns"
    );
    assert_eq!(
        GitRebrandError::BackupFailed("name taken".to_string()).message(),
        "Failed to create backup: name taken"
    );
    assert_eq!(
        GitRebrandError::InvalidConfig("Invalid email format: x".to_string()).message(),
        "Invalid configuration: Invalid email format: x"
    );
    assert_eq!(
        GitRebrandError::RewriteFailed("disk full".to_string()).message(),
        "Failed to rewrite history: disk full"
    );
}

#[test]
fn prefixed_joins_head_and_reason() {
    assert_eq!(prefixed("head: ", &"reason".to_string()), "head: reason");
    assert_eq!(prefixed("", &String::new()), "");
}

#[test]
fn missing_text_reads_as_empty() {
    assert_eq!(text_or_empty(Some("Old Author".to_string())), "Old Author");
    assert_eq!(text_or_empty(None), "");
}

#[test]
fn backup_request_never_forces() {
    let request = backup_request("20240131235959").expect("a timestamp");
    assert_eq!(request.name, "backup_20240131235959");
    assert!(!request.force);
}

#[test]
fn backup_request_needs_a_timestamp() {
    match backup_request("2024-01-31") {
        Err(GitRebrandError::BackupFailed(reason)) => {
            assert_eq!(reason, "not a timestamp: 2024-01-31");
        }
        other => panic!("expected BackupFailed, got {:?}", other),
    }
}

#[test]
fn clock_is_read_in_the_layout_of_a_timestamp() {
    assert_eq!(timestamp_layout(), "%Y%m%d%H%M%S");
}

#[test]
fn backup_second_is_what_the_clock_gave() {
    assert_eq!(backup_second(Some(0)).unwrap(), 0);
    assert_eq!(backup_second(Some(1_700_000_000)).unwrap(), 1_700_000_000);
    assert_eq!(backup_second(Some(LAST_STAMP_SECOND)).unwrap(), 253_402_300_799);
}

#[test]
fn backup_second_refuses_a_clock_out_of_range() {
    match backup_second(None) {
        Err(GitRebrandError::BackupFailed(reason)) => {
            assert_eq!(reason, "the clock stands before 1970");
        }
        other => panic!("expected BackupFailed, got {:?}", other),
    }
    for second in [LAST_STAMP_SECOND + 1, u64::MAX] {
        match backup_second(Some(second)) {
            Err(GitRebrandError::BackupFailed(reason)) => {
                assert_eq!(reason, "the clock stands after the year 9999");
            }
            other => panic!("expected BackupFailed, got {:?}", other),
        }
    }
}

#[test]
fn email_pattern_compiles() {
    assert!(check_email_pattern().is_ok());
}
