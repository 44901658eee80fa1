//! Commits as plain values, and the lines of the dry-run report.

use vstd::prelude::*;
use vstd::string::{StrSliceExecFns, StringExecFns};

verus! {

/// The moment of a signature: seconds since the epoch, and the offset of
/// the signer's time zone in minutes.
#[derive(Debug, Clone, Copy, PartialEq, Eq, Structural)]
pub struct Moment {
    pub seconds: i64,
    pub offset_minutes: i32,
}

/// A snapshot of one commit of the history.  Identifiers are the full hex
/// form of the object hash.
#[derive(Debug, Clone)]
pub struct CommitRecord {
    pub id: String,
    pub author_name: String,
    pub author_email: String,
    /// Commit time in seconds since the epoch.
    pub timestamp: i64,
    /// When the author signed.
    pub author_time: Moment,
    /// When the committer signed.
    pub committer_time: Moment,
    pub message: String,
    /// The parents, in the order in which the commit lists them.
    pub parents: Vec<String>,
    pub tree: String,
}

/// What a `CommitRecord` is in contracts.
pub struct CommitRecordView {
    pub id: Seq<char>,
    pub author_name: Seq<char>,
    pub author_email: Seq<char>,
    pub timestamp: int,
    pub author_time: Moment,
    pub committer_time: Moment,
    pub message: Seq<char>,
    pub parents: Seq<Seq<char>>,
    pub tree: Seq<char>,
}

impl View for CommitRecord {
    type V = CommitRecordView;

    open spec fn view(&self) -> CommitRecordView {
        CommitRecordView {
            id: self.id@,
            author_name: self.author_name@,
            author_email: self.author_email@,
            timestamp: self.timestamp as int,
            author_time: self.author_time,
            committer_time: self.committer_time,
            message: self.message@,
            parents: Seq::new(self.parents@.len(), |i: int| self.parents@[i]@),
            tree: self.tree@,
        }
    }
}

/// The name and the email under which commits are written.
#[derive(Debug, Clone)]
pub struct Identity {
    pub name: String,
    pub email: String,
}

/// What an `Identity` is in contracts.
pub struct IdentityView {
    pub name: Seq<char>,
    pub email: Seq<char>,
}

impl View for Identity {
    type V = IdentityView;

    open spec fn view(&self) -> IdentityView {
        IdentityView { name: self.name@, email: self.email@ }
    }
}

/// One line of the dry-run report: a commit that a pattern matches.
#[derive(Debug, Clone)]
pub struct CommitInfo {
    /// The first eight characters of the commit's identifier.
    pub id: String,
    /// The author as `name <email>`.
    pub author: String,
    /// Commit time in seconds since the epoch.
    pub timestamp: i64,
    /// The pattern that matched, as the configuration holds it.
    pub matched_pattern: String,
}

/// What a `CommitInfo` is in contracts.
pub struct CommitInfoView {
    pub id: Seq<char>,
    pub author: Seq<char>,
    pub timestamp: int,
    pub matched_pattern: Seq<char>,
}

impl View for CommitInfo {
    type V = CommitInfoView;

    open spec fn view(&self) -> CommitInfoView {
        CommitInfoView {
            id: self.id@,
            author: self.author@,
            timestamp: self.timestamp as int,
            matched_pattern: self.matched_pattern@,
        }
    }
}

/// The number of characters of a full identifier: the hash in hex.
pub const FULL_ID_LEN: usize = 40;

/// The number of characters to which an identifier is cut for display.
pub const SHORT_ID_LEN: usize = 8;

/// An identifier cut to its first eight characters; a shorter one is kept
/// whole.
pub open spec fn short_form(id: Seq<char>) -> Seq<char> {
    if id.len() <= SHORT_ID_LEN {
        id
    } else {
        id.take(SHORT_ID_LEN as int)
    }
}

/// The author as one text: the name, a space, and the email in angle
/// brackets.
pub open spec fn author_line(name: Seq<char>, email: Seq<char>) -> Seq<char> {
    name + seq![' ', '<'] + email + seq!['>']
}

/// Cuts an identifier to the form used in reports.
pub fn short_id(id: &str) -> (short: String)
    ensures
        short@ == short_form(id@),
{
    let n: usize = id.unicode_len();
    if n <= SHORT_ID_LEN {
        String::from_str(id)
    } else {
        String::from_str(id.substring_char(0, SHORT_ID_LEN))
    }
}

/// Renders an author as `name <email>`.
pub fn format_author(name: &str, email: &str) -> (line: String)
    ensures
        line@ == author_line(name@, email@),
{
    proof {
        reveal_strlit(" <");
        reveal_strlit(">");
        assert(" <"@ =~= seq![' ', '<']);
        assert(">"@ =~= seq!['>']);
    }
    let mut line = String::from_str(name);
    line.append(" <");
    line.append(email);
    line.append(">");
    line
}

} // verus!
