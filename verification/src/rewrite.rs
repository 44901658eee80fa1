//! The rewrite of a history: which commits are created anew, with which
//! parents, and where each commit ends up.

use vstd::prelude::*;
use crate::commit::{CommitRecord, CommitRecordView, Identity, IdentityView, Moment};
use crate::pattern::{matched_pattern, matches_pattern};
use crate::text::views;
use crate::walk::{distinct_ids, is_sound_walk, parents_first, WalkOrder};

verus! {

/// Where an identifier ends up under a mapping: at its image if the mapping
/// holds it, else at itself.
pub open spec fn resolve_id(m: Map<Seq<char>, Seq<char>>, id: Seq<char>) -> Seq<char> {
    if m.contains_key(id) {
        m[id]
    } else {
        id
    }
}

/// The mapping that a list of pairs stands for; of two pairs with the same
/// first part the later one counts.
spec fn pairs_to_map(pairs: Seq<(String, String)>) -> Map<Seq<char>, Seq<char>>
    decreases pairs.len(),
{
    if pairs.len() == 0 {
        Map::empty()
    } else {
        pairs_to_map(pairs.drop_last()).insert(pairs.last().0@, pairs.last().1@)
    }
}

proof fn lemma_pair_found(pairs: Seq<(String, String)>, key: Seq<char>, at: int)
    requires
        0 <= at < pairs.len(),
        pairs[at].0@ == key,
        forall|j: int| at < j < pairs.len() ==> (#[trigger] pairs[j]).0@ != key,
    ensures
        pairs_to_map(pairs).contains_key(key),
        pairs_to_map(pairs)[key] == pairs[at].1@,
    decreases pairs.len(),
{
    if at < pairs.len() - 1 {
        let front = pairs.drop_last();
        assert(pairs[pairs.len() - 1].0@ != key);
        assert(front[at] == pairs[at]);
        assert forall|j: int| at < j < front.len() implies (#[trigger] front[j]).0@ != key by {
            assert(front[j] == pairs[j]);
        }
        lemma_pair_found(front, key, at);
    }
}

proof fn lemma_pair_absent(pairs: Seq<(String, String)>, key: Seq<char>)
    requires
        forall|j: int| 0 <= j < pairs.len() ==> (#[trigger] pairs[j]).0@ != key,
    ensures
        !pairs_to_map(pairs).contains_key(key),
    decreases pairs.len(),
{
    if pairs.len() > 0 {
        let front = pairs.drop_last();
        assert(pairs[pairs.len() - 1].0@ != key);
        assert forall|j: int| 0 <= j < front.len() implies (#[trigger] front[j]).0@ != key by {
            assert(front[j] == pairs[j]);
        }
        lemma_pair_absent(front, key);
    }
}

/// The mapping from the identifiers of the commits that were walked to the
/// identifiers that stand for them afterwards.
pub struct IdMapping {
    pairs: Vec<(String, String)>,
}

impl View for IdMapping {
    type V = Map<Seq<char>, Seq<char>>;

    closed spec fn view(&self) -> Map<Seq<char>, Seq<char>> {
        pairs_to_map(self.pairs@)
    }
}

impl IdMapping {
    /// The mapping that holds no identifier.
    pub fn new() -> (mapping: IdMapping)
        ensures
            mapping@ == Map::<Seq<char>, Seq<char>>::empty(),
            mapping.recorded() == 0,
    {
        IdMapping { pairs: Vec::new() }
    }

    /// The number of times that `record` was called.
    pub closed spec fn recorded(&self) -> nat {
        self.pairs@.len()
    }

    /// The number of times that `record` was called.
    pub fn len(&self) -> (n: usize)
        ensures
            n == self.recorded(),
    {
        self.pairs.len()
    }

    /// Records that `from` is now stood for by `to`.
    pub fn record(&mut self, from: String, to: String)
        ensures
            final(self)@ == old(self)@.insert(from@, to@),
            final(self).recorded() == old(self).recorded() + 1,
    {
        self.pairs.push((from, to));
        assert(self.pairs@.drop_last() =~= old(self).pairs@);
    }

    /// Where `id` ends up: at the identifier recorded for it, or at itself
    /// where nothing was recorded.
    pub fn resolve(&self, id: &String) -> (image: String)
        ensures
            image@ == resolve_id(self@, id@),
    {
        let mut i: usize = self.pairs.len();
        while i > 0
            invariant
                0 <= i <= self.pairs.len(),
                forall|j: int| i <= j < self.pairs.len() ==> (#[trigger] self.pairs@[j]).0@ != id@,
            decreases i,
        {
            i = i - 1;
            if self.pairs[i].0 == *id {
                proof {
                    lemma_pair_found(self.pairs@, id@, i as int);
                }
                return self.pairs[i].1.clone();
            }
        }
        proof {
            lemma_pair_absent(self.pairs@, id@);
        }
        id.clone()
    }
}

/// What the repository is asked to write for a commit that is created
/// anew.
#[derive(Debug, Clone)]
pub struct CommitRequest {
    /// The commit that the new one stands for.
    pub source: String,
    /// The tree of the new commit: that of its source.
    pub tree: String,
    /// The message of the new commit: that of its source.
    pub message: String,
    /// The parents of the new commit: where the parents of its source
    /// ended up.
    pub parents: Vec<String>,
    /// The identity of author and committer; `None` keeps those of the
    /// source.
    pub new_identity: Option<Identity>,
    /// When the author of the new commit signed: when that of its source
    /// did.
    pub author_time: Moment,
    /// When the committer of the new commit signed: when that of its source
    /// did.
    pub committer_time: Moment,
    /// The reference that is moved to the new commit; `None` moves none.
    pub update_ref: Option<String>,
}

/// What a `CommitRequest` is in contracts.
pub struct CommitRequestView {
    pub source: Seq<char>,
    pub tree: Seq<char>,
    pub message: Seq<char>,
    pub parents: Seq<Seq<char>>,
    pub new_identity: Option<IdentityView>,
    pub author_time: Moment,
    pub committer_time: Moment,
    pub update_ref: Option<Seq<char>>,
}

impl View for CommitRequest {
    type V = CommitRequestView;

    open spec fn view(&self) -> CommitRequestView {
        CommitRequestView {
            source: self.source@,
            tree: self.tree@,
            message: self.message@,
            parents: views(self.parents@),
            new_identity: match self.new_identity {
                Some(identity) => Some(identity@),
                None => None,
            },
            author_time: self.author_time,
            committer_time: self.committer_time,
            update_ref: match self.update_ref {
                Some(name) => Some(name@),
                None => None,
            },
        }
    }
}

/// What is done with one commit of the walk.
#[derive(Debug)]
pub enum Plan {
    /// Neither the commit nor any of its ancestors changes: it stands for
    /// itself.
    Keep,
    /// The commit is created anew as the request says.
    Recreate(CommitRequest),
}

/// What a `Plan` is in contracts: whether the commit is kept, and if not,
/// with which parents it is created anew and whether it gets the
/// replacement identity.
pub enum PlanView {
    Keep,
    Recreate { parents: Seq<Seq<char>>, replace_identity: bool },
}

impl View for Plan {
    type V = PlanView;

    open spec fn view(&self) -> PlanView {
        match self {
            Plan::Keep => PlanView::Keep,
            Plan::Recreate(request) => PlanView::Recreate {
                parents: views(request.parents@),
                replace_identity: request.new_identity is Some,
            },
        }
    }
}

/// Some parent of the list ends up at another identifier.
pub open spec fn needs_relink(parents: Seq<Seq<char>>, m: Map<Seq<char>, Seq<char>>) -> bool {
    exists|k: int| 0 <= k < parents.len() && resolve_id(m, #[trigger] parents[k]) != parents[k]
}

/// The list of parents with each put where it ends up.
pub open spec fn relinked(parents: Seq<Seq<char>>, m: Map<Seq<char>, Seq<char>>) -> Seq<
    Seq<char>,
> {
    Seq::new(parents.len(), |k: int| resolve_id(m, parents[k]))
}

/// The author of the commit falls under a pattern.
pub open spec fn is_matched(commit: CommitRecordView, patterns: Seq<Seq<char>>) -> bool {
    matched_pattern(commit.author_name, commit.author_email, patterns) is Some
}

/// The plan for a commit, given where the commits before it ended up: it
/// is created anew if its author falls under a pattern or if a parent ended
/// up elsewhere, and only in the first case does it get the replacement
/// identity.
pub open spec fn plan_for(
    commit: CommitRecordView,
    m: Map<Seq<char>, Seq<char>>,
    patterns: Seq<Seq<char>>,
) -> PlanView {
    if is_matched(commit, patterns) || needs_relink(commit.parents, m) {
        PlanView::Recreate {
            parents: relinked(commit.parents, m),
            replace_identity: is_matched(commit, patterns),
        }
    } else {
        PlanView::Keep
    }
}

/// What is written for a commit that is created anew: tree and message
/// of the commit as they were, the parents put where they ended up, and the
/// replacement identity only where the author of the commit falls under a
/// pattern.  Author and committer sign when they did in the commit, and no
/// reference is moved: the branch follows only when the whole history has
/// been written.
pub open spec fn request_for(
    commit: CommitRecordView,
    m: Map<Seq<char>, Seq<char>>,
    patterns: Seq<Seq<char>>,
    identity: IdentityView,
) -> CommitRequestView {
    CommitRequestView {
        source: commit.id,
        tree: commit.tree,
        message: commit.message,
        parents: relinked(commit.parents, m),
        new_identity: if is_matched(commit, patterns) {
            Some(identity)
        } else {
            None
        },
        author_time: commit.author_time,
        committer_time: commit.committer_time,
        update_ref: None,
    }
}

/// Decides what is done with `commit`, given the mapping of the commits
/// that were walked before it, and says what is to be written where the
/// commit is created anew.
pub fn plan_commit(
    commit: &CommitRecord,
    mapping: &IdMapping,
    patterns: &Vec<String>,
    identity: &Identity,
) -> (plan: Plan)
    ensures
        plan@ == plan_for(commit@, mapping@, views(patterns@)),
        plan matches Plan::Recreate(request) ==> request@ == request_for(
            commit@,
            mapping@,
            views(patterns@),
            identity@,
        ),
{
    let matched = matches_pattern(
        commit.author_name.as_str(),
        commit.author_email.as_str(),
        patterns,
    ).is_some();
    let mut parents: Vec<String> = Vec::new();
    let mut moved = false;
    let mut k: usize = 0;
    while k < commit.parents.len()
        invariant
            0 <= k <= commit.parents.len(),
            parents.len() == k,
            forall|j: int| 0 <= j < k ==> (#[trigger] parents@[j])@ == resolve_id(
                mapping@,
                commit.parents@[j]@,
            ),
            moved <==> exists|j: int|
                0 <= j < k && resolve_id(mapping@, #[trigger] commit@.parents[j])
                    != commit@.parents[j],
        decreases commit.parents.len() - k,
    {
        let image = mapping.resolve(&commit.parents[k]);
        assert(commit@.parents[k as int] == commit.parents@[k as int]@);
        if !(image == commit.parents[k]) {
            moved = true;
        }
        parents.push(image);
        k = k + 1;
    }
    if matched || moved {
        assert(views(parents@) =~= relinked(commit@.parents, mapping@));
        let new_identity = if matched {
            Some(Identity { name: identity.name.clone(), email: identity.email.clone() })
        } else {
            None
        };
        Plan::Recreate(
            CommitRequest {
                source: commit.id.clone(),
                tree: commit.tree.clone(),
                message: commit.message.clone(),
                parents,
                new_identity,
                author_time: commit.author_time,
                committer_time: commit.committer_time,
                update_ref: None,
            },
        )
    } else {
        Plan::Keep
    }
}

/// The identifier that stands for a commit after its step: its own where
/// it is kept, else the one that was created for it.
pub open spec fn rewritten_id(
    commit: CommitRecordView,
    m: Map<Seq<char>, Seq<char>>,
    patterns: Seq<Seq<char>>,
    created: Seq<char>,
) -> Seq<char> {
    if plan_for(commit, m, patterns) is Keep {
        commit.id
    } else {
        created
    }
}

/// The mapping at the end of a rewrite.  The history is walked from its
/// first commit to its last; each commit is planned against the mapping of
/// the commits before it and then entered, under its own identifier where it
/// is kept and under `created[i]` where it is created anew.
pub open spec fn rewrite_map(
    history: Seq<CommitRecordView>,
    patterns: Seq<Seq<char>>,
    created: Seq<Seq<char>>,
) -> Map<Seq<char>, Seq<char>>
    decreases history.len(),
{
    if history.len() == 0 {
        Map::empty()
    } else {
        let before = rewrite_map(history.drop_last(), patterns, created);
        let commit = history.last();
        before.insert(
            commit.id,
            rewritten_id(commit, before, patterns, created[history.len() - 1]),
        )
    }
}

/// One step of the rewrite: the mapping after the first `n` commits is the
/// mapping after the first `n - 1` with the commit at `n - 1` entered.
pub proof fn lemma_rewrite_step(
    history: Seq<CommitRecordView>,
    patterns: Seq<Seq<char>>,
    created: Seq<Seq<char>>,
    n: int,
)
    requires
        0 < n <= history.len(),
    ensures
        rewrite_map(history.take(n), patterns, created) == rewrite_map(
            history.take(n - 1),
            patterns,
            created,
        ).insert(
            history[n - 1].id,
            rewritten_id(
                history[n - 1],
                rewrite_map(history.take(n - 1), patterns, created),
                patterns,
                created[n - 1],
            ),
        ),
{
    assert(history.take(n).drop_last() =~= history.take(n - 1));
    assert(history.take(n).last() == history[n - 1]);
}

/// The rewrite looks only at the created identifiers of the commits of
/// the history: two lists that agree on them give the same mapping.
pub proof fn lemma_rewrite_reads_prefix(
    history: Seq<CommitRecordView>,
    patterns: Seq<Seq<char>>,
    created_a: Seq<Seq<char>>,
    created_b: Seq<Seq<char>>,
)
    requires
        forall|i: int| 0 <= i < history.len() ==> created_a[i] == created_b[i],
    ensures
        rewrite_map(history, patterns, created_a) == rewrite_map(history, patterns, created_b),
    decreases history.len(),
{
    if history.len() > 0 {
        lemma_rewrite_reads_prefix(history.drop_last(), patterns, created_a, created_b);
    }
}

/// The record of a rewrite is in order: there is one new identifier for
/// each commit of the history, and a commit that was kept has its own.
pub open spec fn is_rewrite_log(
    history: Seq<CommitRecordView>,
    patterns: Seq<Seq<char>>,
    new_ids: Seq<Seq<char>>,
) -> bool {
    &&& new_ids.len() == history.len()
    &&& forall|i: int|
        0 <= i < history.len() ==> #[trigger] new_ids[i] == rewritten_id(
            history[i],
            rewrite_map(history.take(i), patterns, new_ids),
            patterns,
            new_ids[i],
        )
}

/// Entering one more commit extends the mapping by that commit and leaves
/// the record of the commits before it in order.
pub proof fn lemma_rewrite_extend(
    history: Seq<CommitRecordView>,
    patterns: Seq<Seq<char>>,
    new_ids: Seq<Seq<char>>,
    commit: CommitRecordView,
    new_id: Seq<char>,
)
    requires
        is_rewrite_log(history, patterns, new_ids),
        new_id == rewritten_id(
            commit,
            rewrite_map(history, patterns, new_ids),
            patterns,
            new_id,
        ),
    ensures
        is_rewrite_log(history.push(commit), patterns, new_ids.push(new_id)),
        rewrite_map(history.push(commit), patterns, new_ids.push(new_id)) == rewrite_map(
            history,
            patterns,
            new_ids,
        ).insert(commit.id, new_id),
{
    let longer = history.push(commit);
    let more = new_ids.push(new_id);
    assert(longer.drop_last() =~= history);
    lemma_rewrite_reads_prefix(history, patterns, more, new_ids);
    assert forall|i: int| 0 <= i < longer.len() implies #[trigger] more[i] == rewritten_id(
        longer[i],
        rewrite_map(longer.take(i), patterns, more),
        patterns,
        more[i],
    ) by {
        assert(longer.take(i) =~= history.take(i));
        lemma_rewrite_reads_prefix(history.take(i), patterns, more, new_ids);
        if i == history.len() {
            assert(history.take(i) =~= history);
        }
    }
}

/// A rewrite in which no commit falls under a pattern changes nothing:
/// every identifier, the tip among them, ends up at itself.
pub proof fn lemma_rewrite_without_match_is_identity(
    history: Seq<CommitRecordView>,
    patterns: Seq<Seq<char>>,
    created: Seq<Seq<char>>,
)
    requires
        forall|i: int| 0 <= i < history.len() ==> !is_matched(#[trigger] history[i], patterns),
    ensures
        forall|id: Seq<char>| #[trigger]
            resolve_id(rewrite_map(history, patterns, created), id) == id,
    decreases history.len(),
{
    if history.len() > 0 {
        let earlier = history.drop_last();
        assert forall|i: int| 0 <= i < earlier.len() implies !is_matched(
            #[trigger] earlier[i],
            patterns,
        ) by {
            assert(earlier[i] == history[i]);
        }
        lemma_rewrite_without_match_is_identity(earlier, patterns, created);
        let before = rewrite_map(earlier, patterns, created);
        let commit = history.last();
        assert(history[history.len() - 1] == commit);
        assert(!needs_relink(commit.parents, before)) by {
            assert forall|k: int| 0 <= k < commit.parents.len() implies resolve_id(
                before,
                #[trigger] commit.parents[k],
            ) == commit.parents[k] by {}
        }
        assert(plan_for(commit, before, patterns) is Keep);
        let after = rewrite_map(history, patterns, created);
        assert(after == before.insert(commit.id, commit.id));
        assert forall|id: Seq<char>| #[trigger] resolve_id(after, id) == id by {
            if id != commit.id {
                assert(resolve_id(before, id) == id);
            }
        }
    }
}

/// An identifier that none of the commits from place `from` up to place
/// `to` bears ends up after `to` commits where it did after `from`.
pub proof fn lemma_later_steps_keep(
    history: Seq<CommitRecordView>,
    patterns: Seq<Seq<char>>,
    created: Seq<Seq<char>>,
    from: int,
    to: int,
    id: Seq<char>,
)
    requires
        0 <= from <= to <= history.len(),
        forall|j: int| from <= j < to ==> (#[trigger] history[j]).id != id,
    ensures
        rewrite_map(history.take(to), patterns, created).contains_key(id) == rewrite_map(
            history.take(from),
            patterns,
            created,
        ).contains_key(id),
        resolve_id(rewrite_map(history.take(to), patterns, created), id) == resolve_id(
            rewrite_map(history.take(from), patterns, created),
            id,
        ),
    decreases to - from,
{
    if from < to {
        lemma_rewrite_step(history, patterns, created, to);
        lemma_later_steps_keep(history, patterns, created, from, to - 1, id);
        assert(history[to - 1].id != id);
    }
}

/// The rewrite keeps the graph connected.  In a walk that visits parents
/// first and no commit twice, the mapping at the end holds every commit, and
/// the plan that was made for a commit is the plan against the mapping at
/// the end: a commit is kept exactly when neither its author falls under a
/// pattern nor any parent ended up elsewhere, and a commit that is created
/// anew gets as parents the identifiers at which its parents ended up.
pub proof fn lemma_rewrite_relinks(
    history: Seq<CommitRecordView>,
    patterns: Seq<Seq<char>>,
    created: Seq<Seq<char>>,
    i: int,
)
    requires
        parents_first(history),
        distinct_ids(history),
        0 <= i < history.len(),
    ensures
        rewrite_map(history, patterns, created).contains_key(history[i].id),
        plan_for(history[i], rewrite_map(history.take(i), patterns, created), patterns)
            == plan_for(history[i], rewrite_map(history, patterns, created), patterns),
        rewrite_map(history, patterns, created)[history[i].id] == rewritten_id(
            history[i],
            rewrite_map(history, patterns, created),
            patterns,
            created[i],
        ),
{
    let n = history.len() as int;
    let commit = history[i];
    let at_step = rewrite_map(history.take(i), patterns, created);
    let at_end = rewrite_map(history, patterns, created);
    assert(history.take(n) =~= history);
    assert forall|k: int| 0 <= k < commit.parents.len() implies resolve_id(
        at_end,
        #[trigger] commit.parents[k],
    ) == resolve_id(at_step, commit.parents[k]) by {
        let p = commit.parents[k];
        assert forall|j: int| i <= j < n implies (#[trigger] history[j]).id != p by {
            assert(history[i].parents[k] != history[j].id);
        }
        lemma_later_steps_keep(history, patterns, created, i, n, p);
    }
    assert(relinked(commit.parents, at_end) =~= relinked(commit.parents, at_step));
    assert(needs_relink(commit.parents, at_end) == needs_relink(commit.parents, at_step)) by {
        if needs_relink(commit.parents, at_end) {
            let k = choose|k: int|
                0 <= k < commit.parents.len() && resolve_id(at_end, #[trigger] commit.parents[k])
                    != commit.parents[k];
            assert(resolve_id(at_step, commit.parents[k]) != commit.parents[k]);
        }
        if needs_relink(commit.parents, at_step) {
            let k = choose|k: int|
                0 <= k < commit.parents.len() && resolve_id(at_step, #[trigger] commit.parents[k])
                    != commit.parents[k];
            assert(resolve_id(at_end, commit.parents[k]) != commit.parents[k]);
        }
    }
    lemma_rewrite_step(history, patterns, created, i + 1);
    assert forall|j: int| i + 1 <= j < n implies (#[trigger] history[j]).id != commit.id by {
        assert(history[i].id != history[j].id);
    }
    lemma_later_steps_keep(history, patterns, created, i + 1, n, commit.id);
}

/// The views of a list of requests, item by item; a commit that was kept
/// has none.
pub open spec fn request_views(requests: Seq<Option<CommitRequest>>) -> Seq<
    Option<CommitRequestView>,
> {
    Seq::new(
        requests.len(),
        |i: int|
            match requests[i] {
                Some(request) => Some(request@),
                None => None,
            },
    )
}

/// What the repository is asked to write for a commit, given where the
/// commits before it ended up: nothing where the commit is kept, else the
/// request for it.
pub open spec fn planned_request(
    commit: CommitRecordView,
    m: Map<Seq<char>, Seq<char>>,
    patterns: Seq<Seq<char>>,
    identity: IdentityView,
) -> Option<CommitRequestView> {
    if plan_for(commit, m, patterns) is Keep {
        None
    } else {
        Some(request_for(commit, m, patterns, identity))
    }
}

/// The record of what was asked of the repository is in order: for each
/// commit of the history it holds the request that was planned for it
/// against the mapping of the commits before it.
pub open spec fn is_request_log(
    history: Seq<CommitRecordView>,
    patterns: Seq<Seq<char>>,
    identity: IdentityView,
    new_ids: Seq<Seq<char>>,
    requests: Seq<Option<CommitRequestView>>,
) -> bool {
    &&& requests.len() == history.len()
    &&& forall|i: int|
        0 <= i < history.len() ==> #[trigger] requests[i] == planned_request(
            history[i],
            rewrite_map(history.take(i), patterns, new_ids),
            patterns,
            identity,
        )
}

/// Entering one more commit with the request planned for it leaves the
/// record of requests in order.
pub proof fn lemma_requests_extend(
    history: Seq<CommitRecordView>,
    patterns: Seq<Seq<char>>,
    identity: IdentityView,
    new_ids: Seq<Seq<char>>,
    requests: Seq<Option<CommitRequestView>>,
    commit: CommitRecordView,
    new_id: Seq<char>,
    request: Option<CommitRequestView>,
)
    requires
        new_ids.len() == history.len(),
        is_request_log(history, patterns, identity, new_ids, requests),
        request == planned_request(
            commit,
            rewrite_map(history, patterns, new_ids),
            patterns,
            identity,
        ),
    ensures
        is_request_log(
            history.push(commit),
            patterns,
            identity,
            new_ids.push(new_id),
            requests.push(request),
        ),
{
    let longer = history.push(commit);
    let more = new_ids.push(new_id);
    let asked = requests.push(request);
    assert forall|i: int| 0 <= i < longer.len() implies #[trigger] asked[i] == planned_request(
        longer[i],
        rewrite_map(longer.take(i), patterns, more),
        patterns,
        identity,
    ) by {
        assert(longer.take(i) =~= history.take(i));
        lemma_rewrite_reads_prefix(history.take(i), patterns, more, new_ids);
        if i == history.len() {
            assert(history.take(i) =~= history);
        }
    }
}

/// What a rewrite did: the commits that were walked, parents first, the
/// identifier that stands for each of them afterwards, what the repository
/// was asked to write for each, and the tip of the branch before and after.
#[derive(Debug)]
pub struct RewriteResult {
    pub history: Vec<CommitRecord>,
    /// `new_ids[i]` stands for `history[i]`.
    pub new_ids: Vec<String>,
    /// `requests[i]` is what was written for `history[i]`; `None` where the
    /// commit was kept.
    pub requests: Vec<Option<CommitRequest>>,
    pub old_tip: String,
    pub new_tip: String,
}

impl RewriteResult {
    /// The result records a rewrite under these patterns to this identity:
    /// the walk visited no commit twice and none before one of its parents,
    /// and ended at the old tip; every commit that was kept stands for itself;
    /// for every other commit the repository was asked for what the plan
    /// says; and the new tip is where the old tip ended up.
    pub open spec fn is_rewrite_under(
        &self,
        patterns: Seq<Seq<char>>,
        identity: IdentityView,
    ) -> bool {
        &&& is_sound_walk(views(self.history@), WalkOrder::ParentsFirst)
        &&& views(self.history@).last().id == self.old_tip@
        &&& is_rewrite_log(views(self.history@), patterns, views(self.new_ids@))
        &&& is_request_log(
            views(self.history@),
            patterns,
            identity,
            views(self.new_ids@),
            request_views(self.requests@),
        )
        &&& self.new_tip@ == resolve_id(
            rewrite_map(views(self.history@), patterns, views(self.new_ids@)),
            self.old_tip@,
        )
    }
}

proof fn lemma_log_without_match(
    history: Seq<CommitRecordView>,
    patterns: Seq<Seq<char>>,
    identity: IdentityView,
    new_ids: Seq<Seq<char>>,
    requests: Seq<Option<CommitRequestView>>,
    i: int,
)
    requires
        is_rewrite_log(history, patterns, new_ids),
        is_request_log(history, patterns, identity, new_ids, requests),
        forall|j: int| 0 <= j < history.len() ==> !is_matched(#[trigger] history[j], patterns),
        0 <= i < history.len(),
    ensures
        new_ids[i] == history[i].id,
        requests[i] is None,
{
    let before = history.take(i);
    assert forall|j: int| 0 <= j < before.len() implies !is_matched(
        #[trigger] before[j],
        patterns,
    ) by {
        assert(before[j] == history[j]);
    }
    lemma_rewrite_without_match_is_identity(before, patterns, new_ids);
    let m = rewrite_map(before, patterns, new_ids);
    assert(!needs_relink(history[i].parents, m)) by {
        assert forall|k: int| 0 <= k < history[i].parents.len() implies resolve_id(
            m,
            #[trigger] history[i].parents[k],
        ) == history[i].parents[k] by {}
    }
    assert(plan_for(history[i], m, patterns) is Keep);
    assert(new_ids[i] == rewritten_id(history[i], m, patterns, new_ids[i]));
    assert(requests[i] == planned_request(history[i], m, patterns, identity));
}

/// A result that records a rewrite in which no commit falls under a
/// pattern changes nothing: the tip stays where it was, every commit stands
/// for itself, and nothing was asked of the repository.
pub proof fn lemma_result_without_match(
    result: RewriteResult,
    patterns: Seq<Seq<char>>,
    identity: IdentityView,
)
    requires
        result.is_rewrite_under(patterns, identity),
        forall|i: int|
            0 <= i < result.history.len() ==> !is_matched(
                #[trigger] views(result.history@)[i],
                patterns,
            ),
    ensures
        result.new_tip@ == result.old_tip@,
        forall|i: int|
            0 <= i < result.history.len() ==> (#[trigger] result.new_ids@[i])@
                == result.history@[i].id@,
        forall|i: int| 0 <= i < result.history.len() ==> (#[trigger] result.requests@[i]) is None,
{
    let history = views(result.history@);
    let new_ids = views(result.new_ids@);
    let requests = request_views(result.requests@);
    lemma_rewrite_without_match_is_identity(history, patterns, new_ids);
    assert(resolve_id(rewrite_map(history, patterns, new_ids), result.old_tip@) == result.old_tip@);
    assert forall|i: int| 0 <= i < result.history.len() implies (#[trigger] result.new_ids@[i])@
        == result.history@[i].id@ by {
        lemma_log_without_match(history, patterns, identity, new_ids, requests, i);
        assert(new_ids[i] == result.new_ids@[i]@);
        assert(history[i].id == result.history@[i].id@);
    }
    assert forall|i: int| 0 <= i < result.history.len() implies (#[trigger] result.requests@[i])
        is None by {
        lemma_log_without_match(history, patterns, identity, new_ids, requests, i);
        assert(requests[i] is None);
    }
}

/// A result that records a rewrite is coherent: the mapping at the end
/// sends every commit to the identifier listed for it, and the plan that was
/// carried out for a commit is the plan against the mapping at the end, so
/// that a commit that was created anew was asked for on the identifiers
/// listed for its parents.
pub proof fn lemma_result_relinks(
    result: RewriteResult,
    patterns: Seq<Seq<char>>,
    identity: IdentityView,
    i: int,
)
    requires
        result.is_rewrite_under(patterns, identity),
        0 <= i < result.history.len(),
    ensures
        ({
            let history = views(result.history@);
            let new_ids = views(result.new_ids@);
            let at_end = rewrite_map(history, patterns, new_ids);
            &&& at_end.contains_key(history[i].id)
            &&& at_end[history[i].id] == new_ids[i]
            &&& plan_for(history[i], rewrite_map(history.take(i), patterns, new_ids), patterns)
                == plan_for(history[i], at_end, patterns)
            &&& plan_for(history[i], at_end, patterns) is Keep ==> new_ids[i] == history[i].id
            &&& request_views(result.requests@)[i] == planned_request(
                history[i],
                at_end,
                patterns,
                identity,
            )
        }),
{
    let history = views(result.history@);
    let new_ids = views(result.new_ids@);
    let requests = request_views(result.requests@);
    lemma_rewrite_relinks(history, patterns, new_ids, i);
    assert(new_ids[i] == rewritten_id(
        history[i],
        rewrite_map(history.take(i), patterns, new_ids),
        patterns,
        new_ids[i],
    ));
    assert(requests[i] == planned_request(
        history[i],
        rewrite_map(history.take(i), patterns, new_ids),
        patterns,
        identity,
    ));
}

/// The new tip of a result is the identifier listed for the old tip, which
/// is the last commit of the walk.
pub proof fn lemma_result_tip(
    result: RewriteResult,
    patterns: Seq<Seq<char>>,
    identity: IdentityView,
)
    requires
        result.is_rewrite_under(patterns, identity),
    ensures
        result.history.len() > 0,
        result.history@[result.history.len() - 1].id@ == result.old_tip@,
        result.new_ids@[result.history.len() - 1]@ == result.new_tip@,
{
    let history = views(result.history@);
    let i = history.len() - 1;
    lemma_result_relinks(result, patterns, identity, i);
    assert(history[i] == result.history@[i]@);
    assert(views(result.new_ids@)[i] == result.new_ids@[i]@);
}

/// A commit whose author falls under a pattern was asked for under the
/// new identity: with tree, message and the moments of both signatures as
/// they were, on the identifiers listed for its parents, and with no
/// reference moved.
pub proof fn lemma_result_rebrands_matched(
    result: RewriteResult,
    patterns: Seq<Seq<char>>,
    identity: IdentityView,
    i: int,
)
    requires
        result.is_rewrite_under(patterns, identity),
        0 <= i < result.history.len(),
        is_matched(views(result.history@)[i], patterns),
    ensures
        ({
            let history = views(result.history@);
            let new_ids = views(result.new_ids@);
            let at_end = rewrite_map(history, patterns, new_ids);
            &&& request_views(result.requests@)[i] matches Some(request)
            &&& request.new_identity == Some(identity)
            &&& request.source == history[i].id
            &&& request.tree == history[i].tree
            &&& request.message == history[i].message
            &&& request.author_time == history[i].author_time
            &&& request.committer_time == history[i].committer_time
            &&& request.parents == relinked(history[i].parents, at_end)
            &&& request.update_ref is None
            &&& at_end[history[i].id] == new_ids[i]
        }),
{
    lemma_result_relinks(result, patterns, identity, i);
}

/// A commit one of whose parents ended up elsewhere was asked for anew,
/// on the new parents, whether or not its own author falls under a pattern:
/// it keeps tree, message and the moments of both signatures, and it keeps
/// its own identity unless its author matches.
pub proof fn lemma_result_follows_moved_parent(
    result: RewriteResult,
    patterns: Seq<Seq<char>>,
    identity: IdentityView,
    i: int,
    k: int,
)
    requires
        result.is_rewrite_under(patterns, identity),
        0 <= i < result.history.len(),
        0 <= k < views(result.history@)[i].parents.len(),
        resolve_id(
            rewrite_map(views(result.history@), patterns, views(result.new_ids@)),
            views(result.history@)[i].parents[k],
        ) != views(result.history@)[i].parents[k],
    ensures
        ({
            let history = views(result.history@);
            let new_ids = views(result.new_ids@);
            let at_end = rewrite_map(history, patterns, new_ids);
            &&& request_views(result.requests@)[i] matches Some(request)
            &&& request.parents == relinked(history[i].parents, at_end)
            &&& request.parents[k] != history[i].parents[k]
            &&& request.source == history[i].id
            &&& request.tree == history[i].tree
            &&& request.message == history[i].message
            &&& request.author_time == history[i].author_time
            &&& request.committer_time == history[i].committer_time
            &&& !is_matched(history[i], patterns) ==> request.new_identity is None
            &&& at_end[history[i].id] == new_ids[i]
        }),
{
    let history = views(result.history@);
    let new_ids = views(result.new_ids@);
    let at_end = rewrite_map(history, patterns, new_ids);
    lemma_result_relinks(result, patterns, identity, i);
    assert(needs_relink(history[i].parents, at_end));
}

/// A line of descent in a walk: every place of the chain after the first
/// holds a commit that has the commit at the place before it as a parent.
pub open spec fn is_descent(history: Seq<CommitRecordView>, chain: Seq<int>) -> bool {
    &&& chain.len() > 0
    &&& forall|t: int| 0 <= t < chain.len() ==> 0 <= #[trigger] chain[t] < history.len()
    &&& forall|t: int|
        0 < t < chain.len() ==> history[#[trigger] chain[t]].parents.contains(
            history[chain[t - 1]].id,
        )
}

/// The commit at place `j` either was kept or got another identifier than
/// that of its source.
pub open spec fn is_kept_or_renamed(
    history: Seq<CommitRecordView>,
    patterns: Seq<Seq<char>>,
    new_ids: Seq<Seq<char>>,
    j: int,
) -> bool {
    !(plan_for(history[j], rewrite_map(history, patterns, new_ids), patterns) is Keep)
        ==> new_ids[j] != history[j].id
}

/// No commit that was created anew got the identifier of its source back.
/// The repository decides this: it hands back the identifier of the source
/// where the new commit holds, byte for byte, what the source held.
pub open spec fn created_ids_are_new(
    history: Seq<CommitRecordView>,
    patterns: Seq<Seq<char>>,
    new_ids: Seq<Seq<char>>,
) -> bool {
    forall|j: int|
        0 <= j < history.len() ==> #[trigger] is_kept_or_renamed(history, patterns, new_ids, j)
}

/// The mapping at the end sends the commit at place `j` to the identifier
/// listed for it, which is its own if the plan against that mapping keeps it.
spec fn is_settled(
    history: Seq<CommitRecordView>,
    patterns: Seq<Seq<char>>,
    new_ids: Seq<Seq<char>>,
    j: int,
) -> bool {
    let at_end = rewrite_map(history, patterns, new_ids);
    &&& at_end.contains_key(history[j].id)
    &&& at_end[history[j].id] == new_ids[j]
    &&& plan_for(history[j], at_end, patterns) is Keep ==> new_ids[j] == history[j].id
}

proof fn lemma_descent_moves(
    history: Seq<CommitRecordView>,
    patterns: Seq<Seq<char>>,
    new_ids: Seq<Seq<char>>,
    chain: Seq<int>,
)
    requires
        new_ids.len() == history.len(),
        forall|j: int|
            0 <= j < history.len() ==> #[trigger] is_settled(history, patterns, new_ids, j),
        created_ids_are_new(history, patterns, new_ids),
        is_descent(history, chain),
        is_matched(history[chain[0]], patterns),
    ensures
        ({
            let at_end = rewrite_map(history, patterns, new_ids);
            let last = chain.last();
            &&& plan_for(history[last], at_end, patterns) is Recreate
            &&& new_ids[last] != history[last].id
            &&& at_end[history[last].id] == new_ids[last]
            &&& chain.len() > 1 ==> needs_relink(history[last].parents, at_end)
        }),
    decreases chain.len(),
{
    let at_end = rewrite_map(history, patterns, new_ids);
    let last = chain.last();
    assert(chain[chain.len() - 1] == last);
    assert(is_settled(history, patterns, new_ids, last));
    assert(is_kept_or_renamed(history, patterns, new_ids, last));
    if chain.len() > 1 {
        let front = chain.drop_last();
        assert forall|t: int| 0 <= t < front.len() implies 0 <= #[trigger] front[t]
            < history.len() by {
            assert(front[t] == chain[t]);
        }
        assert forall|t: int| 0 < t < front.len() implies history[#[trigger] front[t]].parents.contains(
            history[front[t - 1]].id,
        ) by {
            assert(front[t] == chain[t]);
            assert(front[t - 1] == chain[t - 1]);
        }
        assert(front[0] == chain[0]);
        lemma_descent_moves(history, patterns, new_ids, front);
        let before = front.last();
        assert(before == chain[chain.len() - 2]);
        assert(front[front.len() - 1] == before);
        assert(is_settled(history, patterns, new_ids, before));
        assert(history[last].parents.contains(history[before].id));
        let k = choose|k: int|
            0 <= k < history[last].parents.len() && history[last].parents[k] == history[before].id;
        assert(resolve_id(at_end, history[last].parents[k]) == new_ids[before]);
        assert(resolve_id(at_end, history[last].parents[k]) != history[last].parents[k]);
        assert(needs_relink(history[last].parents, at_end));
    }
}

/// Every descendant of a commit whose author falls under a pattern is
/// created anew, whether or not its own author matches: down a line of
/// descent that starts at a matched commit, every commit gets another
/// identifier, and each after the first is planned on a parent that ended up
/// elsewhere.  This holds where no commit that was created anew got the
/// identifier of its source back.
pub proof fn lemma_result_follows_matched_ancestor(
    result: RewriteResult,
    patterns: Seq<Seq<char>>,
    identity: IdentityView,
    chain: Seq<int>,
)
    requires
        result.is_rewrite_under(patterns, identity),
        created_ids_are_new(views(result.history@), patterns, views(result.new_ids@)),
        is_descent(views(result.history@), chain),
        is_matched(views(result.history@)[chain[0]], patterns),
    ensures
        ({
            let history = views(result.history@);
            let new_ids = views(result.new_ids@);
            let at_end = rewrite_map(history, patterns, new_ids);
            let last = chain.last();
            &&& plan_for(history[last], at_end, patterns) is Recreate
            &&& new_ids[last] != history[last].id
            &&& at_end[history[last].id] == new_ids[last]
            &&& chain.len() > 1 ==> needs_relink(history[last].parents, at_end)
        }),
{
    let history = views(result.history@);
    let new_ids = views(result.new_ids@);
    assert forall|j: int| 0 <= j < history.len() implies #[trigger] is_settled(
        history,
        patterns,
        new_ids,
        j,
    ) by {
        lemma_result_relinks(result, patterns, identity, j);
    }
    lemma_descent_moves(history, patterns, new_ids, chain);
}

} // verus!
