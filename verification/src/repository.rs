//! The calls into the repository and the clock.
//!
//! Each function here makes one kind of call into `git2` or `chrono` and
//! hands plain values back.  None of their bodies is verified, and what
//! they return depends on the repository on disk: the functions that call
//! them are proved for whatever comes back.

use vstd::prelude::*;
use std::fmt::Write;
use std::time::{SystemTime, UNIX_EPOCH};
use chrono::{DateTime, Local};
use crate::backup::LAST_STAMP_SECOND;
use std::path::PathBuf;
use crate::commit::FULL_ID_LEN;
use git2::{Commit, Oid, Repository, ResetType, Revwalk, Signature, Sort, Time, Tree};

verus! {

/// `std::time::SystemTime`: a reading of the system clock.
#[verifier::external_type_specification]
#[verifier::external_body]
pub struct ExSystemTime(SystemTime);

/// `git2::Repository`: an open repository.
#[verifier::external_type_specification]
#[verifier::external_body]
pub struct ExRepository(Repository);

/// `git2::Error`: why a call into the repository failed.
#[verifier::external_type_specification]
#[verifier::external_body]
pub struct ExGitError(git2::Error);

/// `git2::Commit`: a commit object of a repository.
#[verifier::external_type_specification]
#[verifier::external_body]
pub struct ExCommit<'repo>(Commit<'repo>);

/// `git2::Oid`: the hash of an object.
#[verifier::external_type_specification]
#[verifier::external_body]
pub struct ExOid(Oid);

/// `git2::Revwalk`: a walk over the commits of a repository.
#[verifier::external_type_specification]
#[verifier::external_body]
pub struct ExRevwalk<'repo>(Revwalk<'repo>);

/// `git2::Signature`: a name, an email and a time.
#[verifier::external_type_specification]
#[verifier::external_body]
pub struct ExSignature<'a>(Signature<'a>);

/// `git2::Tree`: a tree object of a repository.
#[verifier::external_type_specification]
#[verifier::external_body]
pub struct ExTree<'repo>(Tree<'repo>);

/// `Repository::open`: opens the repository at a path.
#[verifier::external_body]
pub(crate) fn open_repository(path: &PathBuf) -> (opened: Result<Repository, git2::Error>) {
    Repository::open(path)
}

/// `Repository::is_empty`: whether the repository has no commit yet.
#[verifier::external_body]
pub(crate) fn repository_is_empty(repo: &Repository) -> (answer: Result<bool, git2::Error>) {
    repo.is_empty()
}

/// `Repository::is_bare`: whether the repository has no working tree.
#[verifier::external_body]
pub(crate) fn repository_is_bare(repo: &Repository) -> (answer: bool) {
    repo.is_bare()
}

/// `Repository::statuses` with the default options: the status flags of
/// every path that the working tree reports, as the bits of `git2::Status`.
#[verifier::external_body]
pub(crate) fn status_flags(repo: &Repository) -> (flags: Result<Vec<u32>, git2::Error>) {
    match repo.statuses(None) {
        Ok(list) => Ok(list.iter().map(|entry| entry.status().bits()).collect()),
        Err(e) => Err(e),
    }
}

/// `Repository::revwalk`: a walk that has no starting point yet.
#[verifier::external_body]
pub(crate) fn start_walk<'r>(repo: &'r Repository) -> (walk: Result<Revwalk<'r>, git2::Error>) {
    repo.revwalk()
}

/// `Revwalk::push_head`: lets the walk start at the tip of the current
/// branch.
#[verifier::external_body]
pub(crate) fn push_head(walk: &mut Revwalk<'_>) -> (done: Result<(), git2::Error>) {
    walk.push_head()
}

/// `Revwalk::set_sorting`, with the order given as the bits of
/// `git2::Sort`; bits that `Sort` does not know are dropped.
#[verifier::external_body]
pub(crate) fn set_sorting(walk: &mut Revwalk<'_>, bits: u32) -> (done: Result<(), git2::Error>) {
    walk.set_sorting(Sort::from_bits_truncate(bits))
}

/// Runs a `git2::Revwalk` to its end through its `Iterator` and hands back
/// the identifiers that it visits, in hex, or the first error that it meets.
#[verifier::external_body]
pub(crate) fn collect_walk(walk: Revwalk<'_>) -> (ids: Result<Vec<String>, git2::Error>) {
    walk.map(|step| step.map(|oid| oid.to_string())).collect()
}

/// `Repository::find_commit`, for an identifier in hex.
#[verifier::external_body]
pub(crate) fn find_commit<'r>(repo: &'r Repository, id: &str) -> (found: Result<
    Commit<'r>,
    git2::Error,
>) {
    match Oid::from_str(id) {
        Ok(oid) => repo.find_commit(oid),
        Err(e) => Err(e),
    }
}

/// `Repository::head` and `Reference::peel_to_commit`: the commit at the
/// tip of the current branch.
#[verifier::external_body]
pub(crate) fn head_commit<'r>(repo: &'r Repository) -> (tip: Result<Commit<'r>, git2::Error>) {
    match repo.head() {
        Ok(head) => head.peel_to_commit(),
        Err(e) => Err(e),
    }
}

/// `Commit::id`, in hex.  An `Oid` is written as the forty hex digits of
/// its hash.
#[verifier::external_body]
pub(crate) fn commit_id(commit: &Commit<'_>) -> (id: String)
    ensures
        id@.len() == FULL_ID_LEN,
{
    commit.id().to_string()
}

/// `Commit::tree_id`, in hex.
#[verifier::external_body]
pub(crate) fn commit_tree_id(commit: &Commit<'_>) -> (id: String) {
    commit.tree_id().to_string()
}

/// `Repository::find_tree`, for an identifier in hex.
#[verifier::external_body]
pub(crate) fn find_tree<'r>(repo: &'r Repository, id: &str) -> (found: Result<
    Tree<'r>,
    git2::Error,
>) {
    match Oid::from_str(id) {
        Ok(oid) => repo.find_tree(oid),
        Err(e) => Err(e),
    }
}

/// `Commit::parent_ids`, in hex and in the commit's order.
#[verifier::external_body]
pub(crate) fn commit_parent_ids(commit: &Commit<'_>) -> (ids: Vec<String>) {
    commit.parent_ids().map(|oid| oid.to_string()).collect()
}

/// `Commit::time`: the commit time in seconds since the epoch.
#[verifier::external_body]
pub(crate) fn commit_seconds(commit: &Commit<'_>) -> (seconds: i64) {
    commit.time().seconds()
}

/// `Commit::message`; `None` where the message is not valid UTF-8.
#[verifier::external_body]
pub(crate) fn commit_message(commit: &Commit<'_>) -> (message: Option<String>) {
    commit.message().map(|text| text.to_string())
}

/// `Commit::author`.
#[verifier::external_body]
pub(crate) fn commit_author<'c>(commit: &'c Commit<'_>) -> (author: Signature<'c>) {
    commit.author()
}

/// `Commit::committer`.
#[verifier::external_body]
pub(crate) fn commit_committer<'c>(commit: &'c Commit<'_>) -> (committer: Signature<'c>) {
    commit.committer()
}

/// `Signature::name`; `None` where the name is not valid UTF-8.
#[verifier::external_body]
pub(crate) fn signature_name(signature: &Signature<'_>) -> (name: Option<String>) {
    signature.name().map(|text| text.to_string())
}

/// `Signature::email`; `None` where the email is not valid UTF-8.
#[verifier::external_body]
pub(crate) fn signature_email(signature: &Signature<'_>) -> (email: Option<String>) {
    signature.email().map(|text| text.to_string())
}

/// `Signature::when`: the time of a signature, as the seconds since the
/// epoch and the offset in minutes that its `Time` holds.
#[verifier::external_body]
pub(crate) fn signature_when(signature: &Signature<'_>) -> (when: (i64, i32)) {
    let time = signature.when();
    (time.seconds(), time.offset_minutes())
}

/// `Signature::new` at `Time::new(seconds, offset_minutes)`: a signature
/// of the person named, at the moment given.
#[verifier::external_body]
pub(crate) fn make_signature(name: &str, email: &str, seconds: i64, offset_minutes: i32) -> (made:
    Result<Signature<'static>, git2::Error>) {
    Signature::new(name, email, &Time::new(seconds, offset_minutes))
}

/// `Repository::commit`: writes a commit object and hands back its
/// identifier in hex.  Where `update_ref` is `None` no reference is moved.
#[verifier::external_body]
pub(crate) fn create_commit(
    repo: &Repository,
    update_ref: Option<&str>,
    author: &Signature<'_>,
    committer: &Signature<'_>,
    message: &str,
    tree: &Tree<'_>,
    parents: &Vec<Commit<'_>>,
) -> (id: Result<String, git2::Error>) {
    let parent_refs: Vec<&Commit<'_>> = parents.iter().collect();
    match repo.commit(update_ref, author, committer, message, tree, &parent_refs) {
        Ok(oid) => Ok(oid.to_string()),
        Err(e) => Err(e),
    }
}

/// `Repository::branch`: makes a branch that points at `target`.  Without
/// `force` an existing branch of that name is an error.
#[verifier::external_body]
pub(crate) fn create_branch(repo: &Repository, name: &str, target: &Commit<'_>, force: bool) -> (done:
    Result<(), git2::Error>) {
    match repo.branch(name, target, force) {
        Ok(_) => Ok(()),
        Err(e) => Err(e),
    }
}

/// `Repository::reset` of the hard kind: moves the current branch to
/// `target` and makes index and working tree match it.
#[verifier::external_body]
pub(crate) fn reset_hard(repo: &Repository, target: &Commit<'_>) -> (done: Result<
    (),
    git2::Error,
>) {
    repo.reset(target.as_object(), ResetType::Hard, None)
}

/// `Error::message`: what git says went wrong.
#[verifier::external_body]
pub(crate) fn error_text(error: &git2::Error) -> (text: String) {
    error.message().to_string()
}

/// `SystemTime::now`: what the system clock shows.
#[verifier::external_body]
pub(crate) fn system_time_now() -> (now: SystemTime) {
    SystemTime::now()
}

/// `SystemTime::duration_since` the epoch, in whole seconds; `None` where
/// the time lies before the epoch.
#[verifier::external_body]
pub(crate) fn seconds_since_epoch(time: &SystemTime) -> (seconds: Option<u64>) {
    match time.duration_since(UNIX_EPOCH) {
        Ok(elapsed) => Some(elapsed.as_secs()),
        Err(_) => None,
    }
}

/// `DateTime::from_timestamp`, `DateTime::with_timezone` to `chrono::Local`
/// and `DateTime::format`: a moment written as local time in the layout
/// given, or `None` where chrono cannot show the moment or cannot write the
/// layout.  The result depends on the time zone of the machine, so nothing
/// is claimed of it.  The moment must lie between the epoch and the end of
/// the year 9999: there chrono's search for the local offset cannot run out
/// of range.
#[verifier::external_body]
pub(crate) fn local_time_text(second: i64, layout: &str) -> (text: Option<String>)
    requires
        0 <= second <= LAST_STAMP_SECOND,
{
    match DateTime::from_timestamp(second, 0) {
        Some(moment) => {
            let mut text = String::new();
            match write!(text, "{}", moment.with_timezone(&Local).format(layout)) {
                Ok(_) => Some(text),
                Err(_) => None,
            }
        },
        None => None,
    }
}

} // verus!
