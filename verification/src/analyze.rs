//! Validation of the repository and the dry-run report.

use vstd::prelude::*;
use vstd::string::StringExecFns;
use crate::commit::{
    author_line, format_author, short_form, short_id, CommitInfo, CommitInfoView, CommitRecord,
    CommitRecordView, SHORT_ID_LEN,
};
use crate::error::GitRebrandError;
use crate::pattern::{matched_pattern, matches_pattern};
use crate::text::views;
use crate::walk::full_ids;

verus! {

/// The status flags of a path that does not differ from the last commit.
pub const STATUS_CURRENT: u32 = 0;

/// What validation looks at: whether the repository is empty, whether it is
/// bare, and the status flags of every path that the working tree reports.
#[derive(Debug, Clone)]
pub struct RepoStatus {
    pub is_empty: bool,
    pub is_bare: bool,
    pub status_flags: Vec<u32>,
}

/// Some path differs from the last commit.
pub open spec fn is_dirty(status_flags: Seq<u32>) -> bool {
    exists|i: int| 0 <= i < status_flags.len() && #[trigger] status_flags[i] != STATUS_CURRENT
}

/// Whether some path of the working tree differs from the last commit.
pub fn has_uncommitted_changes(status_flags: &Vec<u32>) -> (dirty: bool)
    ensures
        dirty == is_dirty(status_flags@),
{
    let mut i: usize = 0;
    while i < status_flags.len()
        invariant
            0 <= i <= status_flags.len(),
            forall|j: int| 0 <= j < i ==> #[trigger] status_flags[j] == STATUS_CURRENT,
        decreases status_flags.len() - i,
    {
        if status_flags[i] != STATUS_CURRENT {
            return true;
        }
        i = i + 1;
    }
    false
}

/// Why validation refuses a repository, if it does: it is empty, or bare,
/// or its working tree is not clean.  The checks are made in this order and
/// the first that fails gives the reason.
pub open spec fn refusal(status: &RepoStatus) -> Option<Seq<char>> {
    if status.is_empty {
        Some("Repository is empty"@)
    } else if status.is_bare {
        Some("Bare repositories are not supported"@)
    } else if is_dirty(status.status_flags@) {
        Some("Repository has uncommitted changes"@)
    } else {
        None
    }
}

/// Guards the preconditions of every read and write: the repository is not
/// empty, is not bare, and its working tree is clean.
pub fn check_repository(status: &RepoStatus) -> (verdict: Result<(), GitRebrandError>)
    ensures
        match verdict {
            Ok(_) => refusal(status) is None,
            Err(e) => e is InvalidRepository && refusal(status) == Some(e.reason()),
        },
{
    if status.is_empty {
        return Err(GitRebrandError::InvalidRepository(String::from_str("Repository is empty")));
    }
    if status.is_bare {
        return Err(
            GitRebrandError::InvalidRepository(
                String::from_str("Bare repositories are not supported"),
            ),
        );
    }
    if has_uncommitted_changes(&status.status_flags) {
        return Err(
            GitRebrandError::InvalidRepository(
                String::from_str("Repository has uncommitted changes"),
            ),
        );
    }
    Ok(())
}

/// The report line of a commit that `pattern` matches.
pub open spec fn info_of(commit: CommitRecordView, pattern: Seq<char>) -> CommitInfoView {
    CommitInfoView {
        id: short_form(commit.id),
        author: author_line(commit.author_name, commit.author_email),
        timestamp: commit.timestamp,
        matched_pattern: pattern,
    }
}

/// The dry-run report of a history: one line for each commit whose author
/// falls under a pattern, in the order of the history.
pub open spec fn report_of(history: Seq<CommitRecordView>, patterns: Seq<Seq<char>>) -> Seq<
    CommitInfoView,
>
    decreases history.len(),
{
    if history.len() == 0 {
        Seq::empty()
    } else {
        let earlier = report_of(history.drop_last(), patterns);
        let commit = history.last();
        match matched_pattern(commit.author_name, commit.author_email, patterns) {
            Some(p) => earlier.push(info_of(commit, p)),
            None => earlier,
        }
    }
}

/// The report is empty exactly when no commit of the history falls under a
/// pattern.
pub proof fn lemma_report_empty_iff_no_match(
    history: Seq<CommitRecordView>,
    patterns: Seq<Seq<char>>,
)
    ensures
        report_of(history, patterns).len() == 0 <==> forall|i: int|
            0 <= i < history.len() ==> matched_pattern(
                (#[trigger] history[i]).author_name,
                history[i].author_email,
                patterns,
            ) is None,
    decreases history.len(),
{
    if history.len() > 0 {
        let earlier = history.drop_last();
        lemma_report_empty_iff_no_match(earlier, patterns);
        let commit = history.last();
        if matched_pattern(commit.author_name, commit.author_email, patterns) is None {
            if report_of(earlier, patterns).len() == 0 {
                assert forall|i: int| 0 <= i < history.len() implies matched_pattern(
                    (#[trigger] history[i]).author_name,
                    history[i].author_email,
                    patterns,
                ) is None by {
                    if i < earlier.len() {
                        assert(earlier[i] == history[i]);
                    }
                }
            } else {
                let k = choose|k: int|
                    0 <= k < earlier.len() && !(matched_pattern(
                        (#[trigger] earlier[k]).author_name,
                        earlier[k].author_email,
                        patterns,
                    ) is None);
                assert(earlier[k] == history[k]);
            }
        } else {
            assert(history[history.len() - 1] == commit);
        }
    }
}

/// `line` is the report line of the commit at place `i` of the history,
/// which a pattern matches.
pub open spec fn is_line_of(
    history: Seq<CommitRecordView>,
    patterns: Seq<Seq<char>>,
    line: CommitInfoView,
    i: int,
) -> bool {
    &&& 0 <= i < history.len()
    &&& matched_pattern(history[i].author_name, history[i].author_email, patterns) == Some(
        line.matched_pattern,
    )
    &&& line == info_of(history[i], line.matched_pattern)
}

/// Every line of the report stands for a commit of the history that a
/// pattern matches: for the line at place `k` the lemma hands back the place
/// of its commit.
pub proof fn lemma_report_line(
    history: Seq<CommitRecordView>,
    patterns: Seq<Seq<char>>,
    k: int,
) -> (i: int)
    requires
        0 <= k < report_of(history, patterns).len(),
    ensures
        is_line_of(history, patterns, report_of(history, patterns)[k], i),
    decreases history.len(),
{
    let earlier = history.drop_last();
    let before = report_of(earlier, patterns);
    if k < before.len() {
        let i = lemma_report_line(earlier, patterns, k);
        assert(earlier[i] == history[i]);
        i
    } else {
        history.len() - 1
    }
}

/// The report of a history whose commits bear full identifiers shows each
/// of them cut to eight characters.
pub proof fn lemma_report_has_short_ids(history: Seq<CommitRecordView>, patterns: Seq<Seq<char>>)
    requires
        full_ids(history),
    ensures
        forall|k: int|
            0 <= k < report_of(history, patterns).len() ==> (#[trigger] report_of(
                history,
                patterns,
            )[k]).id.len() == SHORT_ID_LEN,
{
    assert forall|k: int| 0 <= k < report_of(history, patterns).len() implies (#[trigger] report_of(
        history,
        patterns,
    )[k]).id.len() == SHORT_ID_LEN by {
        let i = lemma_report_line(history, patterns, k);
        assert(history[i].id.len() == 40);
    }
}

/// The dry-run analysis of a history that was walked newest first: the
/// commits that a pattern matches, each with the first pattern that does.
/// A history in which nothing matches is refused, so that neither a backup
/// nor a rewrite is started for it.
pub fn affected_commits(history: &Vec<CommitRecord>, patterns: &Vec<String>) -> (outcome: Result<
    Vec<CommitInfo>,
    GitRebrandError,
>)
    ensures
        match outcome {
            Ok(report) => report.len() > 0 && views(report@) == report_of(
                views(history@),
                views(patterns@),
            ),
            Err(e) => e is NoMatchingCommits && report_of(views(history@), views(patterns@)).len()
                == 0,
        },
{
    let mut report: Vec<CommitInfo> = Vec::new();
    let ghost all = views(history@);
    let mut i: usize = 0;
    while i < history.len()
        invariant
            0 <= i <= history.len(),
            all == views(history@),
            views(report@) == report_of(all.take(i as int), views(patterns@)),
        decreases history.len() - i,
    {
        let commit = &history[i];
        proof {
            assert(all.take(i + 1).drop_last() =~= all.take(i as int));
            assert(all.take(i + 1).last() == commit@);
        }
        let ghost before = views(report@);
        match matches_pattern(commit.author_name.as_str(), commit.author_email.as_str(), patterns) {
            Some(pattern) => {
                let line = CommitInfo {
                    id: short_id(commit.id.as_str()),
                    author: format_author(
                        commit.author_name.as_str(),
                        commit.author_email.as_str(),
                    ),
                    timestamp: commit.timestamp,
                    matched_pattern: pattern,
                };
                report.push(line);
                assert(views(report@) =~= before.push(line@));
            },
            None => {},
        }
        i = i + 1;
    }
    assert(all.take(history.len() as int) =~= all);
    if report.len() == 0 {
        Err(GitRebrandError::NoMatchingCommits)
    } else {
        Ok(report)
    }
}

/// The dry run on what was read from a repository: its status and its
/// history, newest first.  A repository that validation refuses is refused
/// whatever its history holds; a valid one gives the report of its history,
/// or `NoMatchingCommits` where no commit falls under a pattern.
pub fn analyze(status: &RepoStatus, history: &Vec<CommitRecord>, patterns: &Vec<String>) -> (outcome:
    Result<Vec<CommitInfo>, GitRebrandError>)
    ensures
        match outcome {
            Ok(report) => refusal(status) is None && report.len() > 0 && views(report@)
                == report_of(views(history@), views(patterns@)),
            Err(e) => match refusal(status) {
                Some(reason) => e is InvalidRepository && e.reason() == reason,
                None => e is NoMatchingCommits && report_of(
                    views(history@),
                    views(patterns@),
                ).len() == 0,
            },
        },
{
    match check_repository(status) {
        Ok(_) => affected_commits(history, patterns),
        Err(e) => Err(e),
    }
}

} // verus!
