//! The orders in which a history is walked, and what a walk that visits
//! parents first has to meet.

use vstd::prelude::*;
use crate::commit::{CommitRecord, CommitRecordView, FULL_ID_LEN};
use crate::text::views;

verus! {

/// The order in which a walk visits the commits that can be reached from
/// the tip.
#[derive(Debug, Clone, Copy)]
pub enum WalkOrder {
    /// By commit time, the newest commit first: the order of reports.
    NewestFirst,
    /// Every commit after all of its parents: the order of a rewrite.
    ParentsFirst,
}

/// The bit of `git2::Sort::TOPOLOGICAL`: children before parents.
pub const SORT_TOPOLOGICAL: u32 = 1;

/// The bit of `git2::Sort::TIME`: by commit time, newest first.
pub const SORT_TIME: u32 = 2;

/// The bit of `git2::Sort::REVERSE`: the order turned round.
pub const SORT_REVERSE: u32 = 4;

/// The sorting bits that stand for an order: by time for the newest first;
/// topological and turned round for parents first.
pub open spec fn sort_bits_of(order: WalkOrder) -> u32 {
    match order {
        WalkOrder::NewestFirst => SORT_TIME,
        WalkOrder::ParentsFirst => (SORT_TOPOLOGICAL + SORT_REVERSE) as u32,
    }
}

/// The sorting bits that a walk is given for an order.
pub fn sort_bits(order: WalkOrder) -> (bits: u32)
    ensures
        bits == sort_bits_of(order),
{
    match order {
        WalkOrder::NewestFirst => SORT_TIME,
        WalkOrder::ParentsFirst => SORT_TOPOLOGICAL + SORT_REVERSE,
    }
}

/// No commit of the walk comes before one of its parents, nor is its own
/// parent.
pub open spec fn parents_first(history: Seq<CommitRecordView>) -> bool {
    forall|i: int, j: int, k: int|
        0 <= i <= j < history.len() && 0 <= k < history[i].parents.len() ==> #[trigger] history[i].parents[k]
            != (#[trigger] history[j]).id
}

/// No commit occurs twice in the walk.
pub open spec fn distinct_ids(history: Seq<CommitRecordView>) -> bool {
    forall|i: int, j: int|
        0 <= i < j < history.len() ==> (#[trigger] history[i]).id != (#[trigger] history[j]).id
}

/// The commit at place `i` neither occurs again at place `j` nor has the
/// commit at place `j` as a parent.
spec fn pair_in_order(history: Seq<CommitRecordView>, i: int, j: int) -> bool {
    &&& i < j ==> history[i].id != history[j].id
    &&& forall|k: int|
        0 <= k < history[i].parents.len() ==> #[trigger] history[i].parents[k] != history[j].id
}

/// Whether a parent of the list is the commit with this identifier.
fn has_parent(parents: &Vec<String>, id: &String) -> (found: bool)
    ensures
        found == exists|k: int| 0 <= k < parents.len() && (#[trigger] parents@[k])@ == id@,
{
    let mut k: usize = 0;
    while k < parents.len()
        invariant
            0 <= k <= parents.len(),
            forall|m: int| 0 <= m < k ==> (#[trigger] parents@[m])@ != id@,
        decreases parents.len() - k,
    {
        if parents[k] == *id {
            return true;
        }
        k = k + 1;
    }
    false
}

/// Checks a walk that is to be rewritten: no commit occurs twice, and none
/// comes before one of its parents.  Every pair of commits is looked at, so
/// the check takes time in the square of the length of the walk.
pub fn visits_parents_first(history: &Vec<CommitRecord>) -> (ok: bool)
    ensures
        ok == (parents_first(views(history@)) && distinct_ids(views(history@))),
{
    let ghost all = views(history@);
    let mut i: usize = 0;
    while i < history.len()
        invariant
            0 <= i <= history.len(),
            all == views(history@),
            forall|a: int, b: int| 0 <= a < i && a <= b < all.len() ==> pair_in_order(all, a, b),
        decreases history.len() - i,
    {
        let mut j: usize = i;
        while j < history.len()
            invariant
                0 <= i <= j <= history.len(),
                i < history.len(),
                all == views(history@),
                forall|a: int, b: int|
                    0 <= a < i && a <= b < all.len() ==> pair_in_order(all, a, b),
                forall|b: int| i <= b < j ==> pair_in_order(all, i as int, b),
            decreases history.len() - j,
        {
            let twice = j > i && history[i].id == history[j].id;
            let too_early = has_parent(&history[i].parents, &history[j].id);
            proof {
                assert(all[i as int] == history[i as int]@);
                assert(all[j as int] == history[j as int]@);
                assert forall|k: int| 0 <= k < history[i as int].parents.len() implies all[i as int].parents[k]
                    == (#[trigger] history[i as int].parents@[k])@ by {}
            }
            if twice {
                assert(!distinct_ids(all));
                return false;
            }
            if too_early {
                let ghost k = choose|k: int|
                    0 <= k < history[i as int].parents.len() && (#[trigger] history[i as int].parents@[k])@
                        == history[j as int].id@;
                assert(all[i as int].parents[k] == all[j as int].id);
                assert(!parents_first(all));
                return false;
            }
            assert(pair_in_order(all, i as int, j as int)) by {
                assert forall|k: int| 0 <= k < all[i as int].parents.len() implies #[trigger] all[i as int].parents[k]
                    != all[j as int].id by {
                    assert((history[i as int].parents@[k])@ != history[j as int].id@);
                }
            }
            j = j + 1;
        }
        i = i + 1;
    }
    assert(parents_first(all)) by {
        assert forall|a: int, b: int, k: int|
            0 <= a <= b < all.len() && 0 <= k < all[a].parents.len() implies #[trigger] all[a].parents[k]
                != (#[trigger] all[b]).id by {
            assert(pair_in_order(all, a, b));
        }
    }
    assert(distinct_ids(all)) by {
        assert forall|a: int, b: int| 0 <= a < b < all.len() implies (#[trigger] all[a]).id != (
        #[trigger] all[b]).id by {
            assert(pair_in_order(all, a, b));
        }
    }
    true
}

/// Whether no commit occurs twice in a walk.  Every pair of commits is
/// looked at.
pub fn has_distinct_ids(history: &Vec<CommitRecord>) -> (ok: bool)
    ensures
        ok == distinct_ids(views(history@)),
{
    let ghost all = views(history@);
    let mut i: usize = 0;
    while i < history.len()
        invariant
            0 <= i <= history.len(),
            all == views(history@),
            forall|a: int, b: int| 0 <= a < i && a < b < all.len() ==> all[a].id != all[b].id,
        decreases history.len() - i,
    {
        let mut j: usize = i + 1;
        while j < history.len()
            invariant
                0 <= i < j <= history.len(),
                all == views(history@),
                forall|a: int, b: int| 0 <= a < i && a < b < all.len() ==> all[a].id != all[b].id,
                forall|b: int| i < b < j ==> all[i as int].id != all[b].id,
            decreases history.len() - j,
        {
            proof {
                assert(all[i as int] == history[i as int]@);
                assert(all[j as int] == history[j as int]@);
            }
            if history[i].id == history[j].id {
                assert(!distinct_ids(all));
                return false;
            }
            j = j + 1;
        }
        i = i + 1;
    }
    true
}

/// Every commit of the walk bears a full identifier.
pub open spec fn full_ids(history: Seq<CommitRecordView>) -> bool {
    forall|i: int| 0 <= i < history.len() ==> (#[trigger] history[i]).id.len() == FULL_ID_LEN
}

/// The commit at place `i` is the tip of the walk: no commit of the walk
/// has it as a parent.
pub open spec fn is_tip_at(history: Seq<CommitRecordView>, i: int) -> bool {
    forall|j: int, k: int|
        0 <= j < history.len() && 0 <= k < history[j].parents.len() ==> #[trigger] history[j].parents[k]
            != history[i].id
}

/// No commit of the walk is newer than one that comes before it: the
/// commit times never rise along the walk.
pub open spec fn newest_first(history: Seq<CommitRecordView>) -> bool {
    forall|i: int, j: int|
        0 <= i <= j < history.len() ==> (#[trigger] history[i]).timestamp >= (
        #[trigger] history[j]).timestamp
}

/// Whether the commit times never rise along a walk.
pub fn visits_newest_first(history: &Vec<CommitRecord>) -> (ok: bool)
    ensures
        ok == newest_first(views(history@)),
{
    let ghost all = views(history@);
    if history.len() == 0 {
        return true;
    }
    let mut i: usize = 1;
    while i < history.len()
        invariant
            1 <= i <= history.len(),
            all == views(history@),
            forall|a: int, b: int| 0 <= a <= b < i ==> all[a].timestamp >= all[b].timestamp,
        decreases history.len() - i,
    {
        proof {
            assert(all[i as int] == history[i as int]@);
            assert(all[i - 1] == history[i - 1]@);
        }
        if history[i - 1].timestamp < history[i].timestamp {
            assert(!newest_first(all));
            return false;
        }
        assert forall|a: int, b: int| 0 <= a <= b < i + 1 implies all[a].timestamp
            >= all[b].timestamp by {
            if b == i && a < i {
                assert(all[a].timestamp >= all[i - 1].timestamp);
            }
        }
        i = i + 1;
    }
    true
}

/// What a walk has to meet: it visits at least one commit and none
/// twice.  Where the newest commit is to come first, the commit times never
/// rise along the walk.  Where parents are to come first, no commit comes
/// before one of its parents, and so the walk ends at the tip, the one commit
/// that is nobody's parent.
pub open spec fn is_sound_walk(history: Seq<CommitRecordView>, order: WalkOrder) -> bool {
    &&& history.len() > 0
    &&& distinct_ids(history)
    &&& order is NewestFirst ==> newest_first(history)
    &&& order is ParentsFirst ==> parents_first(history) && is_tip_at(
        history,
        history.len() - 1,
    )
}

/// Checks what came back from a walk.  Every pair of commits is looked
/// at, so the check takes time in the square of the length of the walk.
pub fn check_walk(history: &Vec<CommitRecord>, order: WalkOrder) -> (ok: bool)
    ensures
        ok == is_sound_walk(views(history@), order),
{
    if history.len() == 0 {
        return false;
    }
    match order {
        WalkOrder::NewestFirst => has_distinct_ids(history) && visits_newest_first(history),
        WalkOrder::ParentsFirst => {
            let in_order = visits_parents_first(history);
            proof {
                let all = views(history@);
                if in_order {
                    assert(is_tip_at(all, all.len() - 1)) by {
                        assert forall|j: int, k: int|
                            0 <= j < all.len() && 0 <= k < all[j].parents.len() implies #[trigger] all[j].parents[k]
                                != all[all.len() - 1].id by {
                            assert(all[j].parents[k] != all[all.len() - 1].id);
                        }
                    }
                }
            }
            in_order
        },
    }
}

} // verus!
