//! The rebrander: validation, dry run, backup and rewrite on a repository.

use vstd::prelude::*;
use git2::{Commit, Repository};
use crate::analyze::{
    analyze, check_repository, lemma_report_has_short_ids, report_of, RepoStatus,
};
use crate::backup::{backup_request, backup_second, is_backup_name, timestamp_layout};
use crate::commit::{CommitInfo, CommitRecord, CommitRecordView, Moment, FULL_ID_LEN, SHORT_ID_LEN};
use crate::config::Config;
use crate::error::{prefixed, GitRebrandError};
use crate::pattern::{is_first_match, matched_pattern, matches_pattern, pattern_matches};
use crate::repository::{
    collect_walk, commit_author, commit_committer, commit_id, commit_message, commit_parent_ids,
    commit_seconds, commit_tree_id, create_branch, create_commit, error_text, find_commit,
    find_tree, head_commit, local_time_text, make_signature, open_repository, push_head,
    repository_is_bare, repository_is_empty, reset_hard, seconds_since_epoch, set_sorting,
    signature_email, signature_name, signature_when, start_walk, status_flags, system_time_now,
};
use crate::rewrite::{
    is_request_log, is_rewrite_log, lemma_requests_extend, lemma_rewrite_extend, plan_commit,
    planned_request, request_views, rewrite_map, CommitRequest, IdMapping, Plan, RewriteResult,
};
use crate::text::{text_or_empty, views};
use crate::walk::{check_walk, full_ids, is_sound_walk, sort_bits, WalkOrder};
use vstd::string::StringExecFns;

verus! {

/// A repository together with the configuration under which it is
/// rebranded.
pub struct GitRebrander {
    repo: Repository,
    config: Config,
}

/// The failure of a call into the repository during validation: its reason
/// is the context, which says what was being done, and then what git says
/// went wrong.
fn invalid_repository(context: &str, error: &git2::Error) -> (e: GitRebrandError)
    ensures
        e is InvalidRepository,
        context@.is_prefix_of(e.reason()),
{
    let detail = error_text(error);
    let reason = prefixed(context, &detail);
    assert(reason@.subrange(0, context@.len() as int) =~= context@);
    GitRebrandError::InvalidRepository(reason)
}

/// The failure of a call into the repository during the backup: its reason
/// is the context, which says what was being done, and then what git says
/// went wrong.
fn backup_failed(context: &str, error: &git2::Error) -> (e: GitRebrandError)
    ensures
        e is BackupFailed,
        context@.is_prefix_of(e.reason()),
{
    let detail = error_text(error);
    let reason = prefixed(context, &detail);
    assert(reason@.subrange(0, context@.len() as int) =~= context@);
    GitRebrandError::BackupFailed(reason)
}

/// The failure of a call into the repository during the rewrite: its reason
/// is the context, which says what was being done, and then what git says
/// went wrong.
fn rewrite_failed(context: &str, error: &git2::Error) -> (e: GitRebrandError)
    ensures
        e is RewriteFailed,
        context@.is_prefix_of(e.reason()),
{
    let detail = error_text(error);
    let reason = prefixed(context, &detail);
    assert(reason@.subrange(0, context@.len() as int) =~= context@);
    GitRebrandError::RewriteFailed(reason)
}

/// What a run produced: the report of the dry run that went before, the
/// name of the backup branch if one was made, and the record of the rewrite.
#[derive(Debug)]
pub struct RebrandOutcome {
    pub report: Vec<CommitInfo>,
    pub backup_branch: Option<String>,
    pub rewrite: RewriteResult,
}

impl RebrandOutcome {
    /// The outcome is that of a run under this configuration: the report
    /// is not empty and is the analysis of a history, a backup branch was
    /// made exactly if the configuration asks for one and is named as backup
    /// branches are, and the rewrite went by the patterns.
    pub open spec fn is_outcome_under(&self, config: Config) -> bool {
        &&& self.report.len() > 0
        &&& exists|history: Seq<CommitRecordView>|
            is_sound_walk(history, WalkOrder::NewestFirst) && full_ids(history) && views(
                self.report@,
            ) == #[trigger] report_of(history, views(config.patterns@))
        &&& forall|k: int|
            0 <= k < self.report.len() ==> (#[trigger] self.report@[k]).id@.len() == SHORT_ID_LEN
        &&& self.backup_branch is Some <==> config.create_backup
        &&& self.backup_branch matches Some(name) ==> is_backup_name(name@)
        &&& self.rewrite.is_rewrite_under(views(config.patterns@), config.new_identity())
    }
}

/// Reads a commit object into a record.  A name, an email or a message that
/// is not valid UTF-8 is read as empty.  The identifier is the full hash.
fn read_record(commit: &Commit<'_>) -> (record: CommitRecord)
    ensures
        record@.id.len() == FULL_ID_LEN,
{
    let author = commit_author(commit);
    let committer = commit_committer(commit);
    let author_when = signature_when(&author);
    let committer_when = signature_when(&committer);
    CommitRecord {
        id: commit_id(commit),
        author_name: text_or_empty(signature_name(&author)),
        author_email: text_or_empty(signature_email(&author)),
        timestamp: commit_seconds(commit),
        author_time: Moment { seconds: author_when.0, offset_minutes: author_when.1 },
        committer_time: Moment { seconds: committer_when.0, offset_minutes: committer_when.1 },
        message: text_or_empty(commit_message(commit)),
        parents: commit_parent_ids(commit),
        tree: commit_tree_id(commit),
    }
}

impl GitRebrander {
    /// The configuration that the rebrander was made with.
    pub closed spec fn settings(&self) -> Config {
        self.config
    }

    /// The configuration that the rebrander was made with.
    pub fn config(&self) -> (config: &Config)
        ensures
            *config == self.settings(),
    {
        &self.config
    }

    /// Opens the repository that the configuration names and validates it.
    /// Whatever the repository holds, a rebrander that is handed out keeps
    /// the configuration, and a refusal is an `InvalidRepository`.
    pub fn new(config: Config) -> (outcome: Result<GitRebrander, GitRebrandError>)
        ensures
            match outcome {
                Ok(rebrander) => rebrander.settings() == config,
                Err(e) => e is InvalidRepository,
            },
    {
        let repo = match open_repository(&config.repo_path) {
            Ok(repo) => repo,
            Err(e) => {
                return Err(invalid_repository("Failed to open git repository: ", &e));
            },
        };
        let rebrander = GitRebrander { repo, config };
        match rebrander.validate_repository() {
            Ok(_) => Ok(rebrander),
            Err(e) => Err(e),
        }
    }

    /// Looks at the repository as far as validation needs: the working tree
    /// is asked for its status only where the repository is neither empty nor
    /// bare.
    fn read_status(&self) -> (outcome: Result<RepoStatus, GitRebrandError>)
        ensures
            outcome matches Err(e) ==> e is InvalidRepository,
    {
        let is_empty = match repository_is_empty(&self.repo) {
            Ok(answer) => answer,
            Err(e) => {
                return Err(invalid_repository("Failed to inspect the repository: ", &e));
            },
        };
        let is_bare = repository_is_bare(&self.repo);
        let flags: Vec<u32> = if is_empty || is_bare {
            Vec::new()
        } else {
            match status_flags(&self.repo) {
                Ok(flags) => flags,
                Err(e) => {
                    return Err(invalid_repository("Failed to read the working tree: ", &e));
                },
            }
        };
        Ok(RepoStatus { is_empty, is_bare, status_flags: flags })
    }

    /// Checks that the repository is not empty, not bare and clean.  The
    /// answer depends on the repository; a refusal is an `InvalidRepository`.
    pub fn validate_repository(&self) -> (verdict: Result<(), GitRebrandError>)
        ensures
            verdict matches Err(e) ==> e is InvalidRepository,
    {
        match self.read_status() {
            Ok(status) => check_repository(&status),
            Err(e) => Err(e),
        }
    }

    /// Walks from the tip in the order asked for and reads every commit that
    /// the walk visits into a record.
    fn walk_history(&self, order: WalkOrder) -> (outcome: Result<Vec<CommitRecord>, git2::Error>)
        ensures
            outcome matches Ok(history) ==> full_ids(views(history@)),
    {
        let mut walk = match start_walk(&self.repo) {
            Ok(walk) => walk,
            Err(e) => {
                return Err(e);
            },
        };
        match push_head(&mut walk) {
            Ok(_) => {},
            Err(e) => {
                return Err(e);
            },
        }
        match set_sorting(&mut walk, sort_bits(order)) {
            Ok(_) => {},
            Err(e) => {
                return Err(e);
            },
        }
        let ids = match collect_walk(walk) {
            Ok(ids) => ids,
            Err(e) => {
                return Err(e);
            },
        };
        let mut history: Vec<CommitRecord> = Vec::new();
        let mut i: usize = 0;
        while i < ids.len()
            invariant
                0 <= i <= ids.len(),
                full_ids(views(history@)),
            decreases ids.len() - i,
        {
            match find_commit(&self.repo, ids[i].as_str()) {
                Ok(commit) => {
                    let record = read_record(&commit);
                    let ghost before = views(history@);
                    history.push(record);
                    assert(views(history@) =~= before.push(record@));
                },
                Err(e) => {
                    return Err(e);
                },
            }
            i = i + 1;
        }
        Ok(history)
    }

    /// Walks the commits that can be reached from the tip and reads each
    /// into a record.  What comes back is checked before it is handed out: a
    /// walk that visits nothing, that visits a commit twice or that, where
    /// parents are to come first, visits a commit before one of its parents
    /// is refused.  Whatever the repository holds, a walk that is handed out
    /// meets this, and a failure is an `InvalidRepository`.
    pub fn walk(&self, order: WalkOrder) -> (outcome: Result<Vec<CommitRecord>, GitRebrandError>)
        ensures
            match outcome {
                Ok(history) => is_sound_walk(views(history@), order) && full_ids(
                    views(history@),
                ),
                Err(e) => e is InvalidRepository,
            },
    {
        match self.walk_history(order) {
            Ok(history) => {
                if check_walk(&history, order) {
                    Ok(history)
                } else {
                    Err(
                        GitRebrandError::InvalidRepository(
                            String::from_str("The walk of the history is empty or out of order"),
                        ),
                    )
                }
            },
            Err(e) => Err(invalid_repository("Failed to walk the history: ", &e)),
        }
    }

    /// Finds the pattern of the configuration that an author falls under:
    /// the first in list order that matches.
    pub fn matches_pattern(&self, author: &str, email: &str) -> (found: Option<String>)
        ensures
            match found {
                Some(p) => Some(p@) == matched_pattern(
                    author@,
                    email@,
                    views(self.settings().patterns@),
                ) && exists|i: int|
                    is_first_match(author@, email@, views(self.settings().patterns@), i) && p@
                        == self.settings().patterns[i]@,
                None => matched_pattern(author@, email@, views(self.settings().patterns@)) is None
                    && forall|i: int|
                        0 <= i < self.settings().patterns.len() ==> !pattern_matches(
                            author@,
                            email@,
                            #[trigger] self.settings().patterns[i]@,
                        ),
            },
    {
        matches_pattern(author, email, &self.config.patterns)
    }

    /// Reports the commits that a rewrite would give the new identity,
    /// newest first, without changing anything.  The repository is validated
    /// first, and its history is not read unless it is valid.  Whatever the
    /// repository holds, a report that is handed out is not empty, is the
    /// analysis of the walk that was read, and shows every commit under the
    /// first eight characters of its identifier; a refusal is an
    /// `InvalidRepository` or `NoMatchingCommits`.
    pub fn dry_run(&self) -> (outcome: Result<Vec<CommitInfo>, GitRebrandError>)
        ensures
            match outcome {
                Ok(report) => {
                    &&& report.len() > 0
                    &&& exists|history: Seq<CommitRecordView>|
                        is_sound_walk(history, WalkOrder::NewestFirst) && full_ids(history)
                            && views(report@) == #[trigger] report_of(
                            history,
                            views(self.settings().patterns@),
                        )
                    &&& forall|k: int|
                        0 <= k < report.len() ==> (#[trigger] report@[k]).id@.len()
                            == SHORT_ID_LEN
                },
                Err(e) => e is InvalidRepository || e is NoMatchingCommits,
            },
    {
        let status = match self.read_status() {
            Ok(status) => status,
            Err(e) => {
                return Err(e);
            },
        };
        match check_repository(&status) {
            Ok(_) => {},
            Err(e) => {
                return Err(e);
            },
        }
        let history = match self.walk(WalkOrder::NewestFirst) {
            Ok(history) => history,
            Err(e) => {
                return Err(e);
            },
        };
        let outcome = analyze(&status, &history, &self.config.patterns);
        proof {
            if outcome is Ok {
                let report = outcome->Ok_0;
                let seen = report_of(views(history@), views(self.settings().patterns@));
                assert(views(report@) == seen);
                lemma_report_has_short_ids(views(history@), views(self.settings().patterns@));
                assert forall|k: int| 0 <= k < report.len() implies (#[trigger] report@[k]).id@.len()
                    == SHORT_ID_LEN by {
                    assert(views(report@)[k] == report@[k]@);
                    assert(seen[k].id.len() == SHORT_ID_LEN);
                }
            }
        }
        outcome
    }

    /// Saves the tip under a new branch named `backup_` and the local time
    /// to the second.  The working branch is not moved, and a branch of that
    /// name that exists already is not overwritten: the backup fails.
    pub fn create_backup(&self) -> (outcome: Result<String, GitRebrandError>)
        ensures
            match outcome {
                Ok(name) => is_backup_name(name@),
                Err(e) => e is BackupFailed,
            },
    {
        let tip = match head_commit(&self.repo) {
            Ok(tip) => tip,
            Err(e) => {
                return Err(backup_failed("cannot find the tip: ", &e));
            },
        };
        let now = system_time_now();
        let second = match backup_second(seconds_since_epoch(&now)) {
            Ok(second) => second,
            Err(e) => {
                return Err(e);
            },
        };
        let stamp = match local_time_text(second, timestamp_layout()) {
            Some(stamp) => stamp,
            None => {
                return Err(
                    GitRebrandError::BackupFailed(String::from_str("cannot write the local time")),
                );
            },
        };
        let request = match backup_request(stamp.as_str()) {
            Ok(request) => request,
            Err(e) => {
                return Err(e);
            },
        };
        match create_branch(&self.repo, request.name.as_str(), &tip, request.force) {
            Ok(_) => Ok(request.name),
            Err(e) => Err(backup_failed("cannot create the branch: ", &e)),
        }
    }

    /// Writes the commit that a request asks for.  Where the request names
    /// a new identity, author and committer get it, each at the moment that
    /// the request gives; else both signatures are those of the source, as
    /// they stand.
    fn recreate(&self, request: &CommitRequest) -> (created: Result<String, git2::Error>) {
        let source = match find_commit(&self.repo, request.source.as_str()) {
            Ok(source) => source,
            Err(e) => {
                return Err(e);
            },
        };
        let tree = match find_tree(&self.repo, request.tree.as_str()) {
            Ok(tree) => tree,
            Err(e) => {
                return Err(e);
            },
        };
        let mut parent_commits: Vec<Commit<'_>> = Vec::new();
        let mut k: usize = 0;
        while k < request.parents.len()
            invariant
                0 <= k <= request.parents.len(),
            decreases request.parents.len() - k,
        {
            match find_commit(&self.repo, request.parents[k].as_str()) {
                Ok(parent) => {
                    parent_commits.push(parent);
                },
                Err(e) => {
                    return Err(e);
                },
            }
            k = k + 1;
        }
        let update_ref: Option<&str> = match &request.update_ref {
            Some(name) => Some(name.as_str()),
            None => None,
        };
        match &request.new_identity {
            Some(identity) => {
                let name = identity.name.as_str();
                let email = identity.email.as_str();
                let author = match make_signature(
                    name,
                    email,
                    request.author_time.seconds,
                    request.author_time.offset_minutes,
                ) {
                    Ok(signature) => signature,
                    Err(e) => {
                        return Err(e);
                    },
                };
                let committer = match make_signature(
                    name,
                    email,
                    request.committer_time.seconds,
                    request.committer_time.offset_minutes,
                ) {
                    Ok(signature) => signature,
                    Err(e) => {
                        return Err(e);
                    },
                };
                create_commit(
                    &self.repo,
                    update_ref,
                    &author,
                    &committer,
                    request.message.as_str(),
                    &tree,
                    &parent_commits,
                )
            },
            None => {
                let author = commit_author(&source);
                let committer = commit_committer(&source);
                create_commit(
                    &self.repo,
                    update_ref,
                    &author,
                    &committer,
                    request.message.as_str(),
                    &tree,
                    &parent_commits,
                )
            },
        }
    }

    /// Carries out the plan for every commit of a walk, in the order of the
    /// walk, and hands back the identifier that stands for each commit, the
    /// mapping that they make, and what the repository was asked for.  No
    /// reference is moved.
    fn rewrite_commits(&self, history: &Vec<CommitRecord>) -> (outcome: Result<
        (Vec<String>, IdMapping, Vec<Option<CommitRequest>>),
        GitRebrandError,
    >)
        ensures
            match outcome {
                Ok(written) => {
                    &&& is_rewrite_log(
                        views(history@),
                        views(self.settings().patterns@),
                        views(written.0@),
                    )
                    &&& written.1@ == rewrite_map(
                        views(history@),
                        views(self.settings().patterns@),
                        views(written.0@),
                    )
                    &&& is_request_log(
                        views(history@),
                        views(self.settings().patterns@),
                        self.settings().new_identity(),
                        views(written.0@),
                        request_views(written.2@),
                    )
                },
                Err(e) => e is RewriteFailed,
            },
    {
        let identity = self.config.identity();
        let ghost patterns = views(self.config.patterns@);
        let ghost all = views(history@);
        let mut new_ids: Vec<String> = Vec::new();
        let mut requests: Vec<Option<CommitRequest>> = Vec::new();
        let mut mapping = IdMapping::new();
        let mut i: usize = 0;
        while i < history.len()
            invariant
                0 <= i <= history.len(),
                patterns == views(self.config.patterns@),
                identity@ == self.config.new_identity(),
                all == views(history@),
                is_rewrite_log(all.take(i as int), patterns, views(new_ids@)),
                mapping@ == rewrite_map(all.take(i as int), patterns, views(new_ids@)),
                is_request_log(
                    all.take(i as int),
                    patterns,
                    identity@,
                    views(new_ids@),
                    request_views(requests@),
                ),
            decreases history.len() - i,
        {
            let record = &history[i];
            let ghost planned = planned_request(record@, mapping@, patterns, identity@);
            let ghost asked_before = request_views(requests@);
            let new_id = match plan_commit(record, &mapping, &self.config.patterns, &identity) {
                Plan::Keep => {
                    requests.push(None);
                    record.id.clone()
                },
                Plan::Recreate(request) => {
                    let created = self.recreate(&request);
                    requests.push(Some(request));
                    match created {
                        Ok(id) => id,
                        Err(e) => {
                            return Err(rewrite_failed("cannot create a commit: ", &e));
                        },
                    }
                },
            };
            proof {
                assert(request_views(requests@) =~= asked_before.push(planned));
                lemma_requests_extend(
                    all.take(i as int),
                    patterns,
                    identity@,
                    views(new_ids@),
                    asked_before,
                    record@,
                    new_id@,
                    planned,
                );
                lemma_rewrite_extend(
                    all.take(i as int),
                    patterns,
                    views(new_ids@),
                    record@,
                    new_id@,
                );
                assert(all.take(i as int).push(record@) =~= all.take(i + 1));
                assert(views(new_ids@.push(new_id)) =~= views(new_ids@).push(new_id@));
            }
            mapping.record(record.id.clone(), new_id.clone());
            new_ids.push(new_id);
            i = i + 1;
        }
        assert(all.take(history.len() as int) =~= all);
        Ok((new_ids, mapping, requests))
    }

    /// Rewrites the history of the current branch.  Every commit that can be
    /// reached from the tip is visited, parents first.  A commit whose author
    /// falls under a pattern, or one of whose parents was created anew, is
    /// created anew with its parents relinked, and only a commit whose author
    /// matched gets the new identity.  The branch is moved once, at the very
    /// end, by a hard reset to where the old tip ended up; a failure before
    /// that leaves it where it was, and so does a rewrite that changed nothing.
    ///
    /// The repository is validated first, so that no uncommitted work is
    /// lost to the reset, and the walk is checked before anything is written:
    /// it must end at the tip and hold no commit twice and none before one of
    /// its parents.  Whatever the repository holds, a result that is handed out
    /// records a rewrite of such a walk under the patterns of the
    /// configuration; a failure is an `InvalidRepository` or a
    /// `RewriteFailed`.
    pub fn rewrite_history(&self) -> (outcome: Result<RewriteResult, GitRebrandError>)
        ensures
            match outcome {
                Ok(result) => result.is_rewrite_under(
                    views(self.settings().patterns@),
                    self.settings().new_identity(),
                ),
                Err(e) => e is InvalidRepository || e is RewriteFailed,
            },
    {
        match self.validate_repository() {
            Ok(_) => {},
            Err(e) => {
                return Err(e);
            },
        }
        let old_tip = match head_commit(&self.repo) {
            Ok(tip) => commit_id(&tip),
            Err(e) => {
                return Err(rewrite_failed("cannot find the tip: ", &e));
            },
        };
        let history = match self.walk_history(WalkOrder::ParentsFirst) {
            Ok(history) => history,
            Err(e) => {
                return Err(rewrite_failed("cannot walk the history: ", &e));
            },
        };
        if !check_walk(&history, WalkOrder::ParentsFirst) {
            return Err(
                GitRebrandError::RewriteFailed(
                    String::from_str("the walk of the history is empty or out of order"),
                ),
            );
        }
        let last: usize = history.len() - 1;
        if !(history[last].id == old_tip) {
            return Err(
                GitRebrandError::RewriteFailed(
                    String::from_str("the walk of the history does not end at the tip"),
                ),
            );
        }
        assert(views(history@).last() == history[last as int]@);
        let written = match self.rewrite_commits(&history) {
            Ok(written) => written,
            Err(e) => {
                return Err(e);
            },
        };
        let new_ids = written.0;
        let mapping = written.1;
        let requests = written.2;
        let new_tip = mapping.resolve(&old_tip);
        let moved = if new_tip == old_tip {
            Ok(())
        } else {
            match find_commit(&self.repo, new_tip.as_str()) {
                Ok(target) => reset_hard(&self.repo, &target),
                Err(e) => Err(e),
            }
        };
        match moved {
            Ok(_) => Ok(RewriteResult { history, new_ids, requests, old_tip, new_tip }),
            Err(e) => Err(rewrite_failed("cannot move the branch: ", &e)),
        }
    }

    /// Rebrands the repository: a dry run first, which stops the run where
    /// nothing matches; then the backup, if the configuration asks for one;
    /// then the rewrite.  No step is started unless every step before it
    /// succeeded, and none is tried again.
    ///
    /// Whatever the repository holds, an outcome that is handed out is that
    /// of a run under the configuration, and a failure names the step that
    /// failed: `InvalidRepository` for validation, `NoMatchingCommits` for the
    /// dry run, `BackupFailed` for the backup, which is only made where the
    /// configuration asks for it, and `RewriteFailed` for the rewrite.
    pub fn rebrand(&self) -> (outcome: Result<RebrandOutcome, GitRebrandError>)
        ensures
            match outcome {
                Ok(produced) => produced.is_outcome_under(self.settings()),
                Err(e) => {
                    &&& e is InvalidRepository || e is NoMatchingCommits || e is BackupFailed
                        || e is RewriteFailed
                    &&& e is BackupFailed ==> self.settings().create_backup
                },
            },
    {
        let report = match self.dry_run() {
            Ok(report) => report,
            Err(e) => {
                return Err(e);
            },
        };
        let backup_branch = if self.config.create_backup {
            match self.create_backup() {
                Ok(name) => Some(name),
                Err(e) => {
                    return Err(e);
                },
            }
        } else {
            None
        };
        match self.rewrite_history() {
            Ok(rewrite) => Ok(RebrandOutcome { report, backup_branch, rewrite }),
            Err(e) => Err(e),
        }
    }

    /// Rebrands the repository, as `rebrand` does, and reports only whether
    /// it succeeded.
    pub fn run(&self) -> (outcome: Result<(), GitRebrandError>)
        ensures
            outcome matches Err(e) ==> {
                &&& e is InvalidRepository || e is NoMatchingCommits || e is BackupFailed
                    || e is RewriteFailed
                &&& e is BackupFailed ==> self.settings().create_backup
            },
    {
        match self.rebrand() {
            Ok(_) => Ok(()),
            Err(e) => Err(e),
        }
    }
}

} // verus!
