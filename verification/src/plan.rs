//! Predicate pushdown planning.
//!
//! Given the predicates the host query planner offers, the overlay selects
//! the equality and range predicates it can satisfy itself and encodes that
//! choice into an opaque plan token: a bitmask whose low half marks columns
//! with an equality binding and whose high half marks columns with a range
//! binding. Each selected predicate is assigned the next sequential argument
//! slot. An equality predicate is declared omittable — the underlying scan
//! enforces it exactly — while a range predicate must still be re-checked by
//! the host. All other predicate kinds are left for the host to apply.

use vstd::prelude::*;

verus! {

/// The comparison one host predicate applies to a column.
#[derive(Debug, Clone, Copy, PartialEq, Eq, Structural)]
pub enum PredicateOp {
    Eq,
    Gt,
    Ge,
    Lt,
    Le,
    Other,
}

/// One predicate the host query planner offers: the column position it
/// names, its operator, and whether the host lets the overlay use it.
#[derive(Debug, Clone, Copy)]
pub struct PredicateInfo {
    pub column: u32,
    pub op: PredicateOp,
    pub usable: bool,
}

/// Whether the overlay takes this predicate: it must be usable, apply an
/// equality or range comparison, and name a column the token can mark — the
/// token has sixteen bits for each kind, so predicates on later columns are
/// left for the host like any other it must re-check.
pub open spec fn planned(p: PredicateInfo) -> bool {
    p.usable && p.column < 16 && (p.op is Eq || p.op is Gt || p.op is Ge || p.op is Lt
        || p.op is Le)
}

/// The token bit a taken predicate sets: bit `column` for an equality, bit
/// `column + 16` for a range comparison.
pub open spec fn token_bit(p: PredicateInfo) -> u32 {
    if p.op is Eq {
        1u32 << p.column
    } else {
        1u32 << ((p.column + 16) as u32)
    }
}

/// The plan token: the bits of every taken predicate, or-ed together.
pub open spec fn plan_mask(preds: Seq<PredicateInfo>) -> u32
    decreases preds.len(),
{
    if preds.len() == 0 {
        0u32
    } else {
        let m = plan_mask(preds.drop_last());
        if planned(preds.last()) {
            m | token_bit(preds.last())
        } else {
            m
        }
    }
}

/// How many equality bits of `mask` mark columns below `c`. This is the
/// 0-based position at which the scan statement consumes the argument for an
/// equality-bound column `c`, so argument slots for equality predicates are
/// assigned by it — in ascending column order, not offer order — and line up
/// with the placeholders the statement builds.
pub open spec fn eq_bits_below(mask: u32, c: int) -> int
    decreases c,
{
    if c <= 0 {
        0int
    } else {
        eq_bits_below(mask, c - 1) + if mask & (1u32 << ((c - 1) as u32)) != 0 {
            1int
        } else {
            0int
        }
    }
}

/// There are no more equality bits below `c` than columns below `c`.
pub proof fn lemma_eq_bits_below_bound(mask: u32, c: int)
    requires
        c >= 0,
    ensures
        0 <= eq_bits_below(mask, c) <= c,
    decreases c,
{
    if c > 0 {
        lemma_eq_bits_below_bound(mask, c - 1);
    }
}

/// Whether predicate `j` is the one whose equality binding the token records
/// for its column: the first taken equality predicate naming that column.
/// A later equality on the same column is left for the host — its value
/// could not be told apart in the token.
pub open spec fn planned_eq_first(preds: Seq<PredicateInfo>, j: int) -> bool {
    &&& planned(preds[j])
    &&& preds[j].op is Eq
    &&& plan_mask(preds.take(j)) & (1u32 << preds[j].column) == 0
}

/// How many range predicates among the first `j` are taken.
pub open spec fn planned_range_count(preds: Seq<PredicateInfo>, j: int) -> int
    decreases j,
{
    if j <= 0 {
        0int
    } else {
        planned_range_count(preds, j - 1) + if planned(preds[j - 1]) && !(preds[j - 1].op is Eq) {
            1int
        } else {
            0int
        }
    }
}

/// No more range predicates are taken than are offered.
pub proof fn lemma_planned_range_count_bound(preds: Seq<PredicateInfo>, j: int)
    requires
        j >= 0,
    ensures
        0 <= planned_range_count(preds, j) <= j,
    decreases j,
{
    if j > 0 {
        lemma_planned_range_count_bound(preds, j - 1);
    }
}

/// Scan cost the planner reports when at least one predicate was taken: the
/// scan is expected to be selective.
pub const CONSTRAINED_COST: u64 = 10;

/// Estimated rows for a constrained scan.
pub const CONSTRAINED_ROWS: u64 = 100;

/// Scan cost the planner reports for a full-table scan.
pub const FULL_SCAN_COST: u64 = 1000;

/// Estimated rows for a full-table scan.
pub const FULL_SCAN_ROWS: u64 = 10000;

/// What the planner decided for one query shape: the opaque plan token, the
/// argument slot and omittability of each offered predicate, and the cost
/// and row-count estimate.
#[derive(Debug)]
pub struct ScanPlan {
    /// Bitmask: bit `i` set when column `i` carries an equality binding, bit
    /// `i + 16` when it carries a range binding.
    pub idx_num: u32,
    /// For each offered predicate, its 1-based argument slot, or 0 when the
    /// overlay did not take it. Equality slots count the token's equality
    /// bits in ascending column order — the order the scan statement consumes
    /// its arguments in — and range slots follow after all of them.
    pub argv_index: Vec<usize>,
    /// For each offered predicate, whether the host may skip re-checking it:
    /// true exactly for the first taken equality predicate per column.
    pub omit: Vec<bool>,
    pub estimated_cost: u64,
    pub estimated_rows: u64,
}

/// How many equality bits `mask` sets below column `c`.
fn eq_bits_below_exec(mask: u32, c: u32) -> (r: usize)
    requires
        c <= 16,
    ensures
        r == eq_bits_below(mask, c as int),
{
    let mut count: usize = 0;
    let mut i: u32 = 0;
    while i < c
        invariant
            0 <= i <= c <= 16,
            count == eq_bits_below(mask, i as int),
            count <= i,
        decreases c - i,
    {
        if mask & (1u32 << i) != 0 {
            count = count + 1;
        }
        i = i + 1;
    }
    count
}

/// Plan one query shape from the predicates the host offers.
///
/// The first taken equality predicate per column gets the argument slot that
/// the scan statement will consume for that column — slots count the
/// equality bits in ascending column order — and is marked omittable. Taken
/// range predicates get the slots after all equality slots, in offer order;
/// the scan does not consume their values and the host re-checks them. A
/// repeated equality on a column already bound is left to the host entirely.
pub fn plan_scan(preds: &Vec<PredicateInfo>) -> (r: ScanPlan)
    requires
        preds@.len() + 17 <= usize::MAX,
    ensures
        r.idx_num == plan_mask(preds@),
        r.argv_index@.len() == preds@.len(),
        r.omit@.len() == preds@.len(),
        forall|j: int|
            0 <= j < preds@.len() && planned_eq_first(preds@, j) ==> r.argv_index@[j] == 1
                + eq_bits_below(plan_mask(preds@), preds@[j].column as int) && r.omit@[j] == true,
        forall|j: int|
            0 <= j < preds@.len() && planned(#[trigger] preds@[j]) && !(preds@[j].op is Eq)
                ==> r.argv_index@[j] == eq_bits_below(plan_mask(preds@), 16) + 1
                + planned_range_count(preds@, j) && r.omit@[j] == false,
        forall|j: int|
            0 <= j < preds@.len() && !planned_eq_first(preds@, j) && !(planned(
                #[trigger] preds@[j],
            ) && !(preds@[j].op is Eq)) ==> r.argv_index@[j] == 0 && r.omit@[j] == false,
        r.estimated_cost == if plan_mask(preds@) != 0 {
            CONSTRAINED_COST
        } else {
            FULL_SCAN_COST
        },
        r.estimated_rows == if plan_mask(preds@) != 0 {
            CONSTRAINED_ROWS
        } else {
            FULL_SCAN_ROWS
        },
{
    // First pass: the plan token.
    let mut idx_num: u32 = 0;
    let mut i: usize = 0;
    proof {
        assert(preds@.take(0) =~= Seq::<PredicateInfo>::empty());
    }
    while i < preds.len()
        invariant
            0 <= i <= preds@.len(),
            idx_num == plan_mask(preds@.take(i as int)),
        decreases preds@.len() - i,
    {
        proof {
            assert(preds@.take(i as int + 1).drop_last() =~= preds@.take(i as int));
            assert(preds@.take(i as int + 1).last() == preds@[i as int]);
        }
        let p = preds[i];
        let usable_here = p.usable && p.column < 16;
        let take = match p.op {
            PredicateOp::Eq => usable_here,
            PredicateOp::Gt => usable_here,
            PredicateOp::Ge => usable_here,
            PredicateOp::Lt => usable_here,
            PredicateOp::Le => usable_here,
            PredicateOp::Other => false,
        };
        if take {
            let bit: u32 = match p.op {
                PredicateOp::Eq => 1u32 << p.column,
                _ => 1u32 << (p.column + 16),
            };
            proof {
                assert(bit == token_bit(preds@[i as int]));
            }
            idx_num = idx_num | bit;
        }
        i = i + 1;
    }
    proof {
        assert(preds@.take(preds@.len() as int) =~= preds@);
    }

    // Second pass: argument slots and omit flags against the final token.
    let eq_total = eq_bits_below_exec(idx_num, 16);
    proof {
        lemma_eq_bits_below_bound(idx_num, 16);
    }
    let mut argv_index: Vec<usize> = Vec::new();
    let mut omit: Vec<bool> = Vec::new();
    let mut seen: u32 = 0;
    let mut range_slots: usize = 0;
    let mut i: usize = 0;
    proof {
        assert(preds@.take(0) =~= Seq::<PredicateInfo>::empty());
    }
    while i < preds.len()
        invariant
            0 <= i <= preds@.len(),
            preds@.len() + 17 <= usize::MAX,
            idx_num == plan_mask(preds@),
            eq_total == eq_bits_below(plan_mask(preds@), 16),
            eq_total <= 16,
            seen == plan_mask(preds@.take(i as int)),
            range_slots == planned_range_count(preds@, i as int),
            range_slots <= i,
            argv_index@.len() == i,
            omit@.len() == i,
            forall|j: int|
                0 <= j < i && planned_eq_first(preds@, j) ==> argv_index@[j] == 1 + eq_bits_below(
                    plan_mask(preds@),
                    preds@[j].column as int,
                ) && omit@[j] == true,
            forall|j: int|
                0 <= j < i && planned(#[trigger] preds@[j]) && !(preds@[j].op is Eq)
                    ==> argv_index@[j] == eq_bits_below(plan_mask(preds@), 16) + 1
                    + planned_range_count(preds@, j) && omit@[j] == false,
            forall|j: int|
                0 <= j < i && !planned_eq_first(preds@, j) && !(planned(#[trigger] preds@[j]) && !(
                preds@[j].op is Eq)) ==> argv_index@[j] == 0 && omit@[j] == false,
        decreases preds@.len() - i,
    {
        proof {
            assert(preds@.take(i as int + 1).drop_last() =~= preds@.take(i as int));
            assert(preds@.take(i as int + 1).last() == preds@[i as int]);
            lemma_planned_range_count_bound(preds@, i as int);
        }
        let p = preds[i];
        let usable_here = p.usable && p.column < 16;
        match p.op {
            PredicateOp::Eq => {
                if usable_here && seen & (1u32 << p.column) == 0 {
                    proof {
                        lemma_eq_bits_below_bound(idx_num, p.column as int);
                    }
                    let slot = 1 + eq_bits_below_exec(idx_num, p.column);
                    argv_index.push(slot);
                    omit.push(true);
                    seen = seen | (1u32 << p.column);
                } else {
                    argv_index.push(0);
                    omit.push(false);
                    if usable_here {
                        seen = seen | (1u32 << p.column);
                    }
                }
            },
            PredicateOp::Other => {
                argv_index.push(0);
                omit.push(false);
            },
            _ => {
                if usable_here {
                    argv_index.push(eq_total + 1 + range_slots);
                    omit.push(false);
                    range_slots = range_slots + 1;
                    seen = seen | (1u32 << (p.column + 16));
                } else {
                    argv_index.push(0);
                    omit.push(false);
                }
            },
        }
        i = i + 1;
    }
    proof {
        assert(preds@.take(preds@.len() as int) =~= preds@);
    }
    let estimated_cost: u64 = if idx_num != 0 {
        CONSTRAINED_COST
    } else {
        FULL_SCAN_COST
    };
    let estimated_rows: u64 = if idx_num != 0 {
        CONSTRAINED_ROWS
    } else {
        FULL_SCAN_ROWS
    };
    ScanPlan { idx_num, argv_index, omit, estimated_cost, estimated_rows }
}

} // verus!
