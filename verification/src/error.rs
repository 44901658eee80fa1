//! The ways in which a rebranding can fail.

use vstd::prelude::*;
use vstd::string::StringExecFns;

verus! {

/// Why an operation was refused or given up.  No failure is retried or
/// downgraded: each is handed to the caller as it arose.
#[derive(Debug, Clone)]
pub enum GitRebrandError {
    /// The repository is empty, bare or has uncommitted changes, or cannot
    /// be opened or read.
    InvalidRepository(String),
    /// The list of patterns is empty.
    InvalidPattern(String),
    /// The dry run found no commit that any pattern matches.
    NoMatchingCommits,
    /// The backup branch could not be created.
    BackupFailed(String),
    /// The configuration is malformed, such as an email of the wrong shape.
    InvalidConfig(String),
    /// A commit could not be created anew, or the branch could not be moved.
    RewriteFailed(String),
}

impl GitRebrandError {
    /// The reason that the failure carries; empty where it carries none.
    pub open spec fn reason(&self) -> Seq<char> {
        match self {
            GitRebrandError::InvalidRepository(r) => r@,
            GitRebrandError::InvalidPattern(r) => r@,
            GitRebrandError::NoMatchingCommits => Seq::empty(),
            GitRebrandError::BackupFailed(r) => r@,
            GitRebrandError::InvalidConfig(r) => r@,
            GitRebrandError::RewriteFailed(r) => r@,
        }
    }

    /// The text shown to the user for this failure.
    pub open spec fn message_text(&self) -> Seq<char> {
        match self {
            GitRebrandError::InvalidRepository(r) => "Invalid repository path: "@ + r@,
            GitRebrandError::InvalidPattern(r) => "Invalid author pattern: "@ + r@,
            GitRebrandError::NoMatchingCommits => "No commits matched the provided patterns"@,
            GitRebrandError::BackupFailed(r) => "Failed to create backup: "@ + r@,
            GitRebrandError::InvalidConfig(r) => "Invalid configuration: "@ + r@,
            GitRebrandError::RewriteFailed(r) => "Failed to rewrite history: "@ + r@,
        }
    }

    /// Renders the failure as the text shown to the user.
    pub fn message(&self) -> (text: String)
        ensures
            text@ == self.message_text(),
    {
        match self {
            GitRebrandError::InvalidRepository(r) => prefixed("Invalid repository path: ", r),
            GitRebrandError::InvalidPattern(r) => prefixed("Invalid author pattern: ", r),
            GitRebrandError::NoMatchingCommits => String::from_str(
                "No commits matched the provided patterns",
            ),
            GitRebrandError::BackupFailed(r) => prefixed("Failed to create backup: ", r),
            GitRebrandError::InvalidConfig(r) => prefixed("Invalid configuration: ", r),
            GitRebrandError::RewriteFailed(r) => prefixed("Failed to rewrite history: ", r),
        }
    }
}

/// Joins a fixed head and a reason into one text.
pub fn prefixed(head: &str, reason: &String) -> (text: String)
    ensures
        text@ == head@ + reason@,
{
    let mut text = String::from_str(head);
    text.append(reason.as_str());
    text
}

} // verus!
