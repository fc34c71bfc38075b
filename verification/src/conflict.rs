//! Conflict-resolution directives and the write-path policy they resolve to.
//!
//! The host engine exposes one active directive per mutation statement. The
//! overlay only decides propagate-vs-suppress (and whether to issue the
//! mutation with native replace semantics up front); the distinction between
//! `Rollback`, `Abort` and `Fail` is a host-transaction concern.

use vstd::prelude::*;

verus! {

/// The uniqueness-violation directives a mutation statement can carry.
#[derive(Debug, Clone, Copy, PartialEq, Eq, Structural)]
pub enum ConflictMode {
    /// Abort the statement with an error and roll back the transaction.
    Rollback,
    /// Abort the statement with an error (the default).
    Abort,
    /// Abort the statement with an error but keep prior changes.
    Fail,
    /// Skip the row that caused the violation and report success.
    Ignore,
    /// Delete pre-existing rows that cause the violation, then insert.
    Replace,
}

/// The SQL conflict clause that names each directive; empty for the default
/// `Abort`.
pub open spec fn conflict_sql_clause(m: ConflictMode) -> Seq<char> {
    match m {
        ConflictMode::Rollback => "OR ROLLBACK"@,
        ConflictMode::Abort => ""@,
        ConflictMode::Fail => "OR FAIL"@,
        ConflictMode::Ignore => "OR IGNORE"@,
        ConflictMode::Replace => "OR REPLACE"@,
    }
}

/// The host conflict code that denotes each directive, as the host engine
/// numbers them; every unknown code falls back to the default `Abort`.
pub open spec fn conflict_mode_of_code(code: int) -> ConflictMode {
    if code == 1 {
        ConflictMode::Rollback
    } else if code == 2 {
        ConflictMode::Ignore
    } else if code == 3 {
        ConflictMode::Fail
    } else if code == 5 {
        ConflictMode::Replace
    } else {
        ConflictMode::Abort
    }
}

impl ConflictMode {
    /// Convert to SQL clause text.
    pub fn to_sql_clause(self) -> (r: &'static str)
        ensures
            r@ == conflict_sql_clause(self),
    {
        match self {
            ConflictMode::Rollback => "OR ROLLBACK",
            ConflictMode::Abort => "",
            ConflictMode::Fail => "OR FAIL",
            ConflictMode::Ignore => "OR IGNORE",
            ConflictMode::Replace => "OR REPLACE",
        }
    }

    /// The directive that the host's numeric conflict code denotes, read once
    /// per write operation from the active statement context.
    pub fn from_code(code: i32) -> (m: ConflictMode)
        ensures
            m == conflict_mode_of_code(code as int),
    {
        if code == 1 {
            ConflictMode::Rollback
        } else if code == 2 {
            ConflictMode::Ignore
        } else if code == 3 {
            ConflictMode::Fail
        } else if code == 5 {
            ConflictMode::Replace
        } else {
            ConflictMode::Abort
        }
    }
}

/// What the write path does about a uniqueness violation, fixed before the
/// mutation is issued.
#[derive(Debug, Clone, Copy, PartialEq, Eq, Structural)]
pub enum WritePolicy {
    /// Issue the mutation with host-native replace semantics up front, so no
    /// violation arises at all.
    NativeReplace,
    /// On a violation, suppress the error and report success without having
    /// persisted the row.
    Suppress,
    /// On a violation, propagate it to the caller unchanged.
    Propagate,
}

/// The policy each directive resolves to: `Replace` becomes a native replace,
/// `Ignore` suppresses, and `Abort`, `Fail` and `Rollback` all propagate.
pub open spec fn resolved_policy(m: ConflictMode) -> WritePolicy {
    match m {
        ConflictMode::Replace => WritePolicy::NativeReplace,
        ConflictMode::Ignore => WritePolicy::Suppress,
        ConflictMode::Rollback => WritePolicy::Propagate,
        ConflictMode::Abort => WritePolicy::Propagate,
        ConflictMode::Fail => WritePolicy::Propagate,
    }
}

/// Map the active conflict directive to the write-path policy that governs
/// the mutation.
pub fn resolve(m: ConflictMode) -> (p: WritePolicy)
    ensures
        p == resolved_policy(m),
{
    match m {
        ConflictMode::Replace => WritePolicy::NativeReplace,
        ConflictMode::Ignore => WritePolicy::Suppress,
        ConflictMode::Rollback => WritePolicy::Propagate,
        ConflictMode::Abort => WritePolicy::Propagate,
        ConflictMode::Fail => WritePolicy::Propagate,
    }
}

} // verus!
