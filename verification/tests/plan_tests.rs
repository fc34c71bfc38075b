use sqlite_zstd::plan::{plan_scan, PredicateInfo, PredicateOp};

fn pred(column: u32, op: PredicateOp, usable: bool) -> PredicateInfo {
    PredicateInfo { column, op, usable }
}

#[test]
fn equality_predicate_sets_low_bit_and_omits() {
    let preds = vec![pred(0, PredicateOp::Eq, true)];
    let plan = plan_scan(&preds);
    assert_eq!(plan.idx_num, 1);
    assert_eq!(plan.argv_index, vec![1]);
    assert_eq!(plan.omit, vec![true]);
}

#[test]
fn range_predicate_sets_high_bit_and_keeps_recheck() {
    let preds = vec![pred(2, PredicateOp::Gt, true)];
    let plan = plan_scan(&preds);
    assert_eq!(plan.idx_num, 1 << 18);
    assert_eq!(plan.argv_index, vec![1]);
    assert_eq!(plan.omit, vec![false]);
}

#[test]
fn equality_slots_follow_column_order_ranges_come_after() {
    let preds = vec![
        pred(1, PredicateOp::Eq, true),
        pred(0, PredicateOp::Other, true),
        pred(3, PredicateOp::Le, true),
        pred(2, PredicateOp::Eq, false),
        pred(0, PredicateOp::Eq, true),
    ];
    let plan = plan_scan(&preds);
    assert_eq!(plan.idx_num, (1 << 1) | (1 << 19) | 1);
    // The scan statement consumes equality arguments in ascending column
    // order: column 0 first, column 1 second; the range slot comes after all
    // equality slots.
    assert_eq!(plan.argv_index, vec![2, 0, 3, 0, 1]);
    assert_eq!(plan.omit, vec![true, false, false, false, true]);
}

#[test]
fn range_offered_before_equality_still_binds_equality_first() {
    let preds = vec![
        pred(2, PredicateOp::Gt, true),
        pred(0, PredicateOp::Eq, true),
    ];
    let plan = plan_scan(&preds);
    assert_eq!(plan.idx_num, (1 << 18) | 1);
    // The equality value must arrive as argument 1 — the one placeholder the
    // statement has — whatever order the host offered the predicates in.
    assert_eq!(plan.argv_index, vec![2, 1]);
    assert_eq!(plan.omit, vec![false, true]);
}

#[test]
fn repeated_equality_on_one_column_is_left_to_host() {
    let preds = vec![
        pred(0, PredicateOp::Eq, true),
        pred(0, PredicateOp::Eq, true),
    ];
    let plan = plan_scan(&preds);
    assert_eq!(plan.idx_num, 1);
    assert_eq!(plan.argv_index, vec![1, 0]);
    assert_eq!(plan.omit, vec![true, false]);
}

#[test]
fn unusable_and_other_predicates_are_ignored() {
    let preds = vec![
        pred(0, PredicateOp::Eq, false),
        pred(1, PredicateOp::Other, true),
    ];
    let plan = plan_scan(&preds);
    assert_eq!(plan.idx_num, 0);
    assert_eq!(plan.argv_index, vec![0, 0]);
    assert_eq!(plan.omit, vec![false, false]);
}

#[test]
fn constrained_scan_is_cheaper_than_full_scan() {
    let constrained = plan_scan(&vec![pred(0, PredicateOp::Eq, true)]);
    let full = plan_scan(&vec![]);
    assert!(constrained.estimated_cost < full.estimated_cost);
    assert!(constrained.estimated_rows < full.estimated_rows);
    assert_eq!(constrained.estimated_cost, 10);
    assert_eq!(constrained.estimated_rows, 100);
    assert_eq!(full.estimated_cost, 1000);
    assert_eq!(full.estimated_rows, 10000);
}

#[test]
fn predicates_beyond_token_width_are_left_to_host() {
    let preds = vec![pred(16, PredicateOp::Eq, true)];
    let plan = plan_scan(&preds);
    assert_eq!(plan.idx_num, 0);
    assert_eq!(plan.argv_index, vec![0]);
    assert_eq!(plan.omit, vec![false]);
}
