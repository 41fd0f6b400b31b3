//! Provenance: the revision identifier attached to a run's records.
//!
//! Resolving the current revision is an outside capability (a real resolver
//! queries source control); this crate only receives its outcome.  A failed
//! or empty resolution is always recovered locally by substituting a fixed
//! sentinel, so the identifier attached to records is never empty and a
//! missing revision never fails the pipeline.

use vstd::prelude::*;

verus! {

/// The sentinel stored when no revision identifier can be resolved.
pub open spec fn sentinel_commit() -> Seq<char> {
    "unknown"@
}

/// The sentinel as a fresh string.
pub fn sentinel_commit_string() -> (r: String)
    ensures
        r@ == sentinel_commit(),
        r@.len() > 0,
{
    proof {
        reveal_strlit("unknown");
    }
    "unknown".to_owned()
}

/// The revision identifier to record, given a resolver's outcome: the
/// resolved identifier when there is a non-empty one, the sentinel otherwise.
pub fn resolve_commit(resolved: Option<String>) -> (r: String)
    ensures
        r@.len() > 0,
        match resolved {
            Some(s) => r@ == if s@.len() > 0 {
                s@
            } else {
                sentinel_commit()
            },
            None => r@ == sentinel_commit(),
        },
{
    match resolved {
        Some(s) => {
            if s.as_str().is_empty() {
                sentinel_commit_string()
            } else {
                s
            }
        },
        None => sentinel_commit_string(),
    }
}

/// A placeholder resolver outcome, standing in for a source-control query.
pub fn get_git_commit_hash() -> (r: String)
    ensures
        r@ == "dummy_commit_hash"@,
        r@.len() > 0,
{
    proof {
        reveal_strlit("dummy_commit_hash");
    }
    "dummy_commit_hash".to_owned()
}

} // verus!
