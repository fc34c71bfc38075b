//! Tagged row values, as the underlying store types them.

use vstd::prelude::*;

verus! {

/// The mathematical value that a `RowValue` stands for.
pub enum RowValueModel {
    Null,
    Integer(i64),
    Real(u64),
    Text(Seq<char>),
    Blob(Seq<u8>),
}

/// One cell of a row. Framed text values stored in the underlying table
/// carry a leading marker byte; unframed kinds pass through unchanged.
///
/// A floating-point cell is carried as the raw bit pattern of its value:
/// the overlay never interprets such a value, only passes it through.
#[derive(Debug, Clone)]
pub enum RowValue {
    Null,
    Integer(i64),
    Real(u64),
    Text(String),
    Blob(Vec<u8>),
}

impl View for RowValue {
    type V = RowValueModel;

    open spec fn view(&self) -> RowValueModel {
        match self {
            RowValue::Null => RowValueModel::Null,
            RowValue::Integer(i) => RowValueModel::Integer(*i),
            RowValue::Real(bits) => RowValueModel::Real(*bits),
            RowValue::Text(s) => RowValueModel::Text(s@),
            RowValue::Blob(b) => RowValueModel::Blob(b@),
        }
    }
}

impl DeepView for RowValue {
    type V = RowValueModel;

    open spec fn deep_view(&self) -> RowValueModel {
        self.view()
    }
}

impl RowValue {
    /// A value standing for the same cell.
    pub fn duplicate(&self) -> (r: RowValue)
        ensures
            r@ == self@,
    {
        match self {
            RowValue::Null => RowValue::Null,
            RowValue::Integer(i) => RowValue::Integer(*i),
            RowValue::Real(bits) => RowValue::Real(*bits),
            RowValue::Text(s) => RowValue::Text(s.clone()),
            RowValue::Blob(b) => RowValue::Blob(vstd::slice::slice_to_vec(b.as_slice())),
        }
    }
}

/// A row standing for the same cells.
pub fn duplicate_row(row: &Vec<RowValue>) -> (r: Vec<RowValue>)
    ensures
        r.deep_view() == row.deep_view(),
{
    let ghost all = row.deep_view();
    let mut out: Vec<RowValue> = Vec::new();
    let mut i: usize = 0;
    while i < row.len()
        invariant
            all == row.deep_view(),
            0 <= i <= row.len(),
            out.deep_view() == all.take(i as int),
        decreases row.len() - i,
    {
        let ghost old_out = out.deep_view();
        out.push(row[i].duplicate());
        proof {
            assert(out.deep_view() =~= old_out.push(all[i as int]));
            assert(all.take(i as int + 1) =~= all.take(i as int).push(all[i as int]));
        }
        i = i + 1;
    }
    proof {
        assert(all.take(row.len() as int) =~= all);
    }
    out
}

} // verus!
