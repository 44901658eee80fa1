//! Rewrites the authorship of selected commits in a git history.
//!
//! Commits whose author name or email matches one of a list of patterns are
//! created anew with a replacement identity; every descendant is relinked so
//! that the rewritten graph stays connected.  The decisions are verified
//! functions on plain values; the calls into the repository are kept in
//! small wrappers whose contracts are stated, not proved.

pub mod text;
pub mod error;
pub mod pattern;
pub mod commit;
pub mod walk;
pub mod analyze;
pub mod rewrite;
pub mod config;
pub mod backup;
pub mod repository;
pub mod rebrander;

pub use crate::commit::{CommitInfo, CommitRecord};
pub use crate::config::{default_backup, Config};
pub use crate::error::GitRebrandError;
pub use crate::rebrander::{GitRebrander, RebrandOutcome};
pub use crate::walk::WalkOrder;
pub use crate::rewrite::RewriteResult;
