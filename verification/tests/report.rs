use git_rebrand::analyze::{
    affected_commits, analyze, check_repository, has_uncommitted_changes, RepoStatus,
    STATUS_CURRENT,
};
use git_rebrand::commit::{format_author, short_id, CommitRecord, Moment};
use git_rebrand::error::GitRebrandError;

fn commit(id: &str, name: &str, email: &str, timestamp: i64, parents: &[&str]) -> CommitRecord {
    CommitRecord {
        id: id.to_string(),
        author_name: name.to_string(),
        author_email: email.to_string(),
        timestamp,
        author_time: Moment { seconds: timestamp, offset_minutes: 0 },
        committer_time: Moment { seconds: timestamp, offset_minutes: 0 },
        message: format!("commit {}", id),
        parents: parents.iter().map(|p| p.to_string()).collect(),
        tree: "4b825dc642cb6eb9a060e54bf8d69288fbee4904".to_string(),
    }
}

fn status(is_empty: bool, is_bare: bool, flags: &[u32]) -> RepoStatus {
    RepoStatus { is_empty, is_bare, status_flags: flags.to_vec() }
}

fn reason_of(verdict: Result<(), GitRebrandError>) -> String {
    match verdict {
        Err(GitRebrandError::InvalidRepository(reason)) => reason,
        other => panic!("expected InvalidRepository, got {:?}", other),
    }
}

#[test]
fn clean_repository_is_accepted() {
    assert!(check_repository(&status(false, false, &[])).is_ok());
    assert!(check_repository(&status(false, false, &[STATUS_CURRENT, STATUS_CURRENT])).is_ok());
}

#[test]
fn empty_repository_is_refused() {
    assert_eq!(reason_of(check_repository(&status(true, false, &[]))), "Repository is empty");
}

#[test]
fn bare_repository_is_refused() {
    assert_eq!(
        reason_of(check_repository(&status(false, true, &[]))),
        "Bare repositories are not supported"
    );
}

#[test]
fn dirty_repository_is_refused() {
    assert_eq!(
        reason_of(check_repository(&status(false, false, &[0, 128, 0]))),
        "Repository has uncommitted changes"
    );
}

#[test]
fn first_failing_check_gives_the_reason() {
    assert_eq!(reason_of(check_repository(&status(true, true, &[1]))), "Repository is empty");
    assert_eq!(
        reason_of(check_repository(&status(false, true, &[1]))),
        "Bare repositories are not supported"
    );
}

#[test]
fn uncommitted_changes_are_any_flag_but_current() {
    assert!(!has_uncommitted_changes(&vec![]));
    assert!(!has_uncommitted_changes(&vec![0, 0, 0]));
    assert!(has_uncommitted_changes(&vec![0, 0, 1]));
    assert!(has_uncommitted_changes(&vec![16384]));
    assert!(has_uncommitted_changes(&vec![u32::MAX, 0]));
}

#[test]
fn short_id_is_the_first_eight_characters() {
    assert_eq!(short_id("0123456789abcdef0123456789abcdef01234567"), "01234567");
    assert_eq!(short_id("012345678"), "01234567");
    assert_eq!(short_id("01234567"), "01234567");
}

#[test]
fn short_id_keeps_a_shorter_text_whole() {
    assert_eq!(short_id("abc"), "abc");
    assert_eq!(short_id(""), "");
}

#[test]
fn short_id_counts_characters_not_bytes() {
    assert_eq!(short_id("ääääääääää"), "ääääääää");
}

#[test]
fn author_is_name_and_email_in_angle_brackets() {
    assert_eq!(format_author("Old Author", "old@example.com"), "Old Author <old@example.com>");
    assert_eq!(format_author("", ""), " <>");
}

#[test]
fn report_lists_matching_commits_in_walk_order() {
    // Newest first, as the dry run walks.
    let history = vec![
        commit("c3c3c3c3c3c3", "alice", "alice@x.com", 300, &["c2c2c2c2c2c2"]),
        commit("c2c2c2c2c2c2", "bob", "bob@x.com", 200, &["c1c1c1c1c1c1"]),
        commit("c1c1c1c1c1c1", "alice", "alice@x.com", 100, &[]),
    ];
    let patterns = vec!["alice".to_string()];
    let report = affected_commits(&history, &patterns).expect("two commits match");
    assert_eq!(report.len(), 2);
    assert_eq!(report[0].id, "c3c3c3c3");
    assert_eq!(report[0].author, "alice <alice@x.com>");
    assert_eq!(report[0].timestamp, 300);
    assert_eq!(report[0].matched_pattern, "alice");
    assert_eq!(report[1].id, "c1c1c1c1");
    assert_eq!(report[1].timestamp, 100);
    assert_eq!(report[1].matched_pattern, "alice");
}

#[test]
fn report_names_the_first_pattern_that_matches() {
    let history = vec![commit("aaaaaaaaaaaa", "Old Author", "old@example.com", 7, &[])];
    let patterns = vec!["nobody".to_string(), "OLD".to_string(), "old@example.com".to_string()];
    let report = affected_commits(&history, &patterns).expect("one commit matches");
    assert_eq!(report.len(), 1);
    assert_eq!(report[0].matched_pattern, "OLD");
}

#[test]
fn history_without_a_match_is_refused() {
    let history = vec![
        commit("aaaaaaaaaaaa", "Different Author", "different@example.com", 2, &["bbbbbbbbbbbb"]),
        commit("bbbbbbbbbbbb", "Test User", "test@example.com", 1, &[]),
    ];
    let patterns = vec!["nonexistent@example.com".to_string()];
    let outcome = affected_commits(&history, &patterns);
    assert!(matches!(outcome, Err(GitRebrandError::NoMatchingCommits)));
}

#[test]
fn empty_history_is_refused() {
    let history: Vec<CommitRecord> = Vec::new();
    let patterns = vec!["alice".to_string()];
    assert!(matches!(
        affected_commits(&history, &patterns),
        Err(GitRebrandError::NoMatchingCommits)
    ));
}

#[test]
fn empty_pattern_list_is_refused() {
    let history = vec![commit("aaaaaaaaaaaa", "alice", "alice@x.com", 1, &[])];
    let patterns: Vec<String> = Vec::new();
    assert!(matches!(
        affected_commits(&history, &patterns),
        Err(GitRebrandError::NoMatchingCommits)
    ));
}

#[test]
fn analysis_gives_the_same_report_each_time() {
    let history = vec![
        commit("c2c2c2c2c2c2", "bob", "bob@x.com", 200, &["c1c1c1c1c1c1"]),
        commit("c1c1c1c1c1c1", "alice", "alice@x.com", 100, &[]),
    ];
    let patterns = vec!["@x.com".to_string()];
    let first = affected_commits(&history, &patterns).expect("both match");
    let second = affected_commits(&history, &patterns).expect("both match");
    assert_eq!(first.len(), second.len());
    for (a, b) in first.iter().zip(second.iter()) {
        assert_eq!(a.id, b.id);
        assert_eq!(a.author, b.author);
        assert_eq!(a.timestamp, b.timestamp);
        assert_eq!(a.matched_pattern, b.matched_pattern);
    }
}

#[test]
fn dry_run_of_a_valid_repository_reports_the_matches() {
    let history = vec![
        commit("c2c2c2c2c2c2", "bob", "bob@x.com", 200, &["c1c1c1c1c1c1"]),
        commit("c1c1c1c1c1c1", "alice", "alice@x.com", 100, &[]),
    ];
    let report = analyze(&status(false, false, &[0]), &history, &vec!["alice".to_string()])
        .expect("one commit matches");
    assert_eq!(report.len(), 1);
    assert_eq!(report[0].id, "c1c1c1c1");
}

#[test]
fn dry_run_without_a_match_fails() {
    let history = vec![commit("c1c1c1c1c1c1", "alice", "alice@x.com", 100, &[])];
    let outcome = analyze(&status(false, false, &[]), &history, &vec!["carol".to_string()]);
    assert!(matches!(outcome, Err(GitRebrandError::NoMatchingCommits)));
}

#[test]
fn dry_run_of_a_dirty_repository_fails_whatever_matches() {
    let history = vec![commit("c1c1c1c1c1c1", "alice", "alice@x.com", 100, &[])];
    let matching = analyze(&status(false, false, &[256]), &history, &vec!["alice".to_string()]);
    match matching {
        Err(GitRebrandError::InvalidRepository(reason)) => {
            assert_eq!(reason, "Repository has uncommitted changes")
        }
        other => panic!("expected InvalidRepository, got {:?}", other),
    }
    let missing = analyze(&status(false, false, &[256]), &history, &vec!["carol".to_string()]);
    assert!(matches!(missing, Err(GitRebrandError::InvalidRepository(_))));
}
