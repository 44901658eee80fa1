//! The name of the backup branch.

use vstd::prelude::*;
use vstd::string::{StrSliceExecFns, StringExecFns};
use crate::error::GitRebrandError;

verus! {

/// The number of digits of a timestamp: year, month, day, hour, minute and
/// second.
pub const TIMESTAMP_LEN: usize = 14;

/// The layout in which the clock is read for the name of a backup branch.
pub const TIMESTAMP_LAYOUT: &'static str = "%Y%m%d%H%M%S";

/// The last second that a timestamp of four digits for the year can
/// show: the end of the year 9999, in seconds since the epoch.
pub const LAST_STAMP_SECOND: u64 = 253_402_300_799;

/// The layout that the clock is asked to write the time in.
pub fn timestamp_layout() -> (layout: &'static str)
    ensures
        layout@ == TIMESTAMP_LAYOUT@,
{
    TIMESTAMP_LAYOUT
}

/// The moment of a backup, from what the clock gave as the seconds since
/// the epoch.  A clock that stands before the epoch gives nothing, and is
/// refused; so is one that stands after the year 9999, whose time no
/// timestamp can show.
pub fn backup_second(since_epoch: Option<u64>) -> (outcome: Result<i64, GitRebrandError>)
    ensures
        match outcome {
            Ok(second) => since_epoch == Some(second as u64) && 0 <= second
                <= LAST_STAMP_SECOND,
            Err(e) => e is BackupFailed && match since_epoch {
                Some(second) => second > LAST_STAMP_SECOND && e.reason()
                    == "the clock stands after the year 9999"@,
                None => e.reason() == "the clock stands before 1970"@,
            },
        },
{
    match since_epoch {
        Some(second) => {
            if second <= LAST_STAMP_SECOND {
                Ok(second as i64)
            } else {
                Err(
                    GitRebrandError::BackupFailed(
                        String::from_str("the clock stands after the year 9999"),
                    ),
                )
            }
        },
        None => Err(GitRebrandError::BackupFailed(String::from_str("the clock stands before 1970"))),
    }
}

/// A timestamp of second precision: fourteen decimal digits.
pub open spec fn is_timestamp(s: Seq<char>) -> bool {
    &&& s.len() == TIMESTAMP_LEN
    &&& forall|i: int| 0 <= i < s.len() ==> '0' <= #[trigger] s[i] <= '9'
}

/// The name of a backup branch: `backup_` and a timestamp.
pub open spec fn is_backup_name(name: Seq<char>) -> bool {
    exists|stamp: Seq<char>| is_timestamp(stamp) && name == "backup_"@ + stamp
}

/// Whether a text is a timestamp of second precision.
pub fn check_timestamp(stamp: &str) -> (ok: bool)
    ensures
        ok == is_timestamp(stamp@),
{
    let n: usize = stamp.unicode_len();
    if n != TIMESTAMP_LEN {
        return false;
    }
    let mut i: usize = 0;
    while i < n
        invariant
            n == stamp@.len(),
            0 <= i <= n,
            forall|j: int| 0 <= j < i ==> '0' <= #[trigger] stamp@[j] <= '9',
        decreases n - i,
    {
        let c = stamp.get_char(i);
        if c < '0' || c > '9' {
            return false;
        }
        i = i + 1;
    }
    true
}

/// Makes the name of the backup branch from a timestamp.  A text that is
/// not a timestamp is refused, so that no branch gets a name of another
/// shape.
pub fn backup_branch_name(stamp: &str) -> (outcome: Result<String, GitRebrandError>)
    ensures
        match outcome {
            Ok(name) => is_timestamp(stamp@) && name@ == "backup_"@ + stamp@ && is_backup_name(
                name@,
            ),
            Err(e) => !is_timestamp(stamp@) && e is BackupFailed && e.reason()
                == "not a timestamp: "@ + stamp@,
        },
{
    if check_timestamp(stamp) {
        let mut name = String::from_str("backup_");
        name.append(stamp);
        Ok(name)
    } else {
        let mut reason = String::from_str("not a timestamp: ");
        reason.append(stamp);
        Err(GitRebrandError::BackupFailed(reason))
    }
}

/// What the repository is asked for when the tip is saved: the name of
/// the new branch, and whether it may take the place of a branch that bears
/// that name already.
#[derive(Debug, Clone)]
pub struct BranchRequest {
    pub name: String,
    /// Whether an existing branch of that name is overwritten.
    pub force: bool,
}

/// Makes the request for a backup branch from a timestamp.  The branch is
/// never forced: two backups within one second must fail, not lose the
/// first.  A text that is not a timestamp is refused.
pub fn backup_request(stamp: &str) -> (outcome: Result<BranchRequest, GitRebrandError>)
    ensures
        match outcome {
            Ok(request) => is_timestamp(stamp@) && request.name@ == "backup_"@ + stamp@
                && is_backup_name(request.name@) && !request.force,
            Err(e) => !is_timestamp(stamp@) && e is BackupFailed && e.reason()
                == "not a timestamp: "@ + stamp@,
        },
{
    match backup_branch_name(stamp) {
        Ok(name) => Ok(BranchRequest { name, force: false }),
        Err(e) => Err(e),
    }
}

} // verus!
