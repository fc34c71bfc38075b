use sqlite_zstd::conflict::{resolve, ConflictMode, WritePolicy};

#[test]
fn test_conflict_mode_to_sql() {
    assert_eq!(ConflictMode::Rollback.to_sql_clause(), "OR ROLLBACK");
    assert_eq!(ConflictMode::Abort.to_sql_clause(), "");
    assert_eq!(ConflictMode::Fail.to_sql_clause(), "OR FAIL");
    assert_eq!(ConflictMode::Ignore.to_sql_clause(), "OR IGNORE");
    assert_eq!(ConflictMode::Replace.to_sql_clause(), "OR REPLACE");
}

#[test]
fn test_conflict_mode_equality() {
    assert_eq!(ConflictMode::Replace, ConflictMode::Replace);
    assert_ne!(ConflictMode::Replace, ConflictMode::Ignore);
}

#[test]
fn conflict_mode_from_host_codes() {
    assert_eq!(ConflictMode::from_code(1), ConflictMode::Rollback);
    assert_eq!(ConflictMode::from_code(2), ConflictMode::Ignore);
    assert_eq!(ConflictMode::from_code(3), ConflictMode::Fail);
    assert_eq!(ConflictMode::from_code(4), ConflictMode::Abort);
    assert_eq!(ConflictMode::from_code(5), ConflictMode::Replace);
    // Unknown codes fall back to the default.
    assert_eq!(ConflictMode::from_code(0), ConflictMode::Abort);
    assert_eq!(ConflictMode::from_code(99), ConflictMode::Abort);
}

#[test]
fn directives_resolve_to_policies() {
    assert_eq!(resolve(ConflictMode::Replace), WritePolicy::NativeReplace);
    assert_eq!(resolve(ConflictMode::Ignore), WritePolicy::Suppress);
    assert_eq!(resolve(ConflictMode::Abort), WritePolicy::Propagate);
    assert_eq!(resolve(ConflictMode::Fail), WritePolicy::Propagate);
    assert_eq!(resolve(ConflictMode::Rollback), WritePolicy::Propagate);
}
