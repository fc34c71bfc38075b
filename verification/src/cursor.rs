//! The scan cursor: row-by-row state of one open scan.
//!
//! The adapter drives the underlying select statement and hands each fetched
//! row (or the end of the scan) to the cursor. The cursor decides the row's
//! scan-time identity — the implicit identity for a store that assigns one,
//! the declared key itself when that key is a single integer, a synthetic
//! per-scan counter (cached in the identity tracker) otherwise — buffers the
//! raw row, and presents each column on demand, decompressing the framed
//! ones. The buffered row is owned by the cursor and overwritten on every
//! step.

use vstd::prelude::*;
use vstd::utf8::{decode_utf8, valid_utf8};

use crate::codec::{DecodeError, decompress_with_marker, framed_decoding, string_from_utf8};
use crate::identity::RowIdentityTracker;
use crate::overlay::{pk_cell_values, ZstdVTab};
use crate::schema::{first_pk_index, find_first_pk, pk_column_names, pk_columns, ColumnModel};
use crate::text::names_contain;
use crate::values::{RowValue, RowValueModel};

verus! {

/// The scan-time identity of one fetched row and whether it is synthetic.
/// A store with implicit identity yields that identity (selected first).
/// One without yields the declared key itself only when that key is a
/// *single* column holding an integer — such a key disambiguates rows and
/// round-trips through the write path unchanged. Every other shape — a
/// composite key, whatever its cells hold, or a non-integer single key —
/// gets the per-scan counter, synthetic and to be cached.
pub open spec fn scan_identity(
    cols: Seq<ColumnModel>,
    without_rowid: bool,
    counter_after: i64,
    row: Seq<RowValueModel>,
) -> (i64, bool) {
    if !without_rowid {
        (row[0]->Integer_0, false)
    } else if pk_column_names(cols).len() == 1 {
        match first_pk_index(cols) {
            Some(i) => match row[i] {
                RowValueModel::Integer(k) => (k, false),
                _ => (counter_after, true),
            },
            None => (counter_after, true),
        }
    } else {
        (counter_after, true)
    }
}

/// What a scan presents for one stored cell: a byte-sequence cell of a
/// compressed column is decoded; where decoding fails the bytes are
/// reinterpreted as plain text — rows written before compression was enabled
/// carry no marker, and empty bytes are empty text — and where that fails
/// too the raw bytes pass through unchanged, so one foreign value never
/// aborts the scan. Every other cell passes through unchanged.
pub open spec fn column_presentation(stored: RowValueModel, compressed: bool) -> RowValueModel {
    match stored {
        RowValueModel::Blob(b) => if compressed {
            match framed_decoding(b) {
                Ok(t) => RowValueModel::Text(t),
                Err(_) => if valid_utf8(b) {
                    RowValueModel::Text(decode_utf8(b))
                } else {
                    RowValueModel::Blob(b)
                },
            }
        } else {
            RowValueModel::Blob(b)
        },
        other => other,
    }
}

/// Compression is invisible end to end: a framed byte cell that decodes to
/// text `t` — as every cell the write path frames does, by its contract —
/// is presented by the scan as exactly `t`.
pub proof fn lemma_stored_text_reads_back(b: Seq<u8>, t: Seq<char>)
    requires
        framed_decoding(b) == Ok::<Seq<char>, DecodeError>(t),
    ensures
        column_presentation(RowValueModel::Blob(b), true) == RowValueModel::Text(t),
{
}

/// One open scan over the overlaid table.
pub struct ZstdCursor {
    eof: bool,
    current_rowid: i64,
    row_counter: i64,
    row: Option<Vec<RowValue>>,
}

impl ZstdCursor {
    /// Whether the scan is past its last row.
    pub closed spec fn spec_eof(&self) -> bool {
        self.eof
    }

    /// The identity established at the last fetched row.
    pub closed spec fn spec_rowid(&self) -> i64 {
        self.current_rowid
    }

    /// How many rows this scan has fetched (drives synthetic identifiers).
    pub closed spec fn spec_counter(&self) -> i64 {
        self.row_counter
    }

    /// Whether a fetched row is buffered.
    pub closed spec fn has_row(&self) -> bool {
        self.row is Some
    }

    /// The buffered row.
    pub closed spec fn buffered_row(&self) -> Seq<RowValueModel> {
        self.row->0.deep_view()
    }

    /// A cursor not yet opened: exhausted until a scan begins.
    pub fn new() -> (r: ZstdCursor)
        ensures
            r.spec_eof(),
            r.spec_rowid() == 0,
            r.spec_counter() == 0,
            !r.has_row(),
    {
        ZstdCursor { eof: true, current_rowid: 0, row_counter: 0, row: None }
    }

    /// Begin a fresh scan: the synthetic counter restarts at zero and the
    /// previous scan's buffered row is dropped.
    pub fn begin_filter(&mut self)
        ensures
            final(self).spec_counter() == 0,
            !final(self).has_row(),
            final(self).spec_eof() == old(self).spec_eof(),
            final(self).spec_rowid() == old(self).spec_rowid(),
    {
        self.row_counter = 0;
        self.row = None;
    }

    /// Take note that the underlying scan is exhausted.
    pub fn observe_end(&mut self)
        ensures
            final(self).spec_eof(),
            !final(self).has_row(),
            final(self).spec_counter() == old(self).spec_counter(),
            final(self).spec_rowid() == old(self).spec_rowid(),
    {
        self.eof = true;
        self.row = None;
    }

    /// Whether the scan is past its last row.
    pub fn eof(&self) -> (r: bool)
        ensures
            r == self.spec_eof(),
    {
        self.eof
    }

    /// The identity established at the last fetched row.
    pub fn rowid(&self) -> (r: i64)
        ensures
            r == self.spec_rowid(),
    {
        self.current_rowid
    }

    /// How many rows the current scan has fetched.
    pub fn counter(&self) -> (r: i64)
        ensures
            r == self.spec_counter(),
    {
        self.row_counter
    }

    /// Take note of one row the underlying scan yielded: establish its
    /// scan-time identity, cache the declared-key tuple of a synthetic
    /// identifier, and buffer the raw row.
    pub fn observe_row(
        &mut self,
        vtab: &ZstdVTab,
        tracker: &mut RowIdentityTracker,
        row: Vec<RowValue>,
    )
        requires
            old(self).spec_counter() < i64::MAX,
            vtab.is_without_rowid ==> row@.len() == vtab.columns@.len(),
            !vtab.is_without_rowid ==> row@.len() == vtab.columns@.len() + 1
                && row.deep_view()[0] is Integer,
        ensures
            ({
                let counter_after = old(self).spec_counter() + if vtab.is_without_rowid {
                    1int
                } else {
                    0int
                };
                let identity = scan_identity(
                    vtab.columns.deep_view(),
                    vtab.is_without_rowid,
                    counter_after as i64,
                    row.deep_view(),
                );
                &&& final(self).spec_counter() == counter_after
                &&& final(self).spec_rowid() == identity.0
                &&& !final(self).spec_eof()
                &&& final(self).has_row()
                &&& final(self).buffered_row() == row.deep_view()
                &&& if vtab.is_without_rowid && identity.1 {
                    &&& final(tracker).entries().contains_key(identity.0)
                    &&& final(tracker).entries()[identity.0].deep_view() == pk_cell_values(
                        vtab.columns.deep_view(),
                        row.deep_view(),
                    )
                    &&& final(tracker).entries() == old(tracker).entries().insert(
                        identity.0,
                        final(tracker).entries()[identity.0],
                    )
                } else {
                    final(tracker).entries() == old(tracker).entries()
                }
            }),
    {
        if vtab.is_without_rowid {
            self.row_counter = self.row_counter + 1;
            let mut synthetic = true;
            let pk = pk_columns(&vtab.columns);
            if pk.len() == 1 {
                match find_first_pk(&vtab.columns) {
                    Some(idx) => {
                        match &row[idx] {
                            RowValue::Integer(k) => {
                                self.current_rowid = *k;
                                synthetic = false;
                            },
                            _ => {
                                self.current_rowid = self.row_counter;
                            },
                        }
                    },
                    None => {
                        self.current_rowid = self.row_counter;
                    },
                }
            } else {
                self.current_rowid = self.row_counter;
            }
            if synthetic {
                let cells = vtab.pk_cells(&row);
                tracker.record(self.current_rowid, cells);
            }
        } else {
            let identity = match &row[0] {
                RowValue::Integer(k) => *k,
                _ => {
                    proof {
                        assert(false);
                    }
                    0i64
                },
            };
            self.current_rowid = identity;
        }
        self.eof = false;
        self.row = Some(row);
    }

    /// Present column `col` of the buffered row, decompressing it when it
    /// belongs to a compressed column.
    pub fn read_column(&self, vtab: &ZstdVTab, col: usize) -> (r: RowValue)
        requires
            self.has_row(),
            col < vtab.columns@.len(),
            self.buffered_row().len() == vtab.columns@.len() + if vtab.is_without_rowid {
                0int
            } else {
                1int
            },
        ensures
            ({
                let stmt_col = col + if vtab.is_without_rowid {
                    0int
                } else {
                    1int
                };
                r@ == column_presentation(
                    self.buffered_row()[stmt_col],
                    vtab.spec_compressed_at(col as int),
                )
            }),
    {
        let _ncols = vtab.columns.len();
        let stmt_col = if vtab.is_without_rowid {
            col
        } else {
            col + 1
        };
        let row = match &self.row {
            Some(r) => r,
            None => {
                proof {
                    assert(false);
                }
                return RowValue::Null;
            },
        };
        let compressed = names_contain(&vtab.compressed_columns, vtab.columns[col].name.as_str());
        match &row[stmt_col] {
            RowValue::Blob(b) => {
                if compressed {
                    match decompress_with_marker(b.as_slice()) {
                        Ok(s) => RowValue::Text(s),
                        Err(_) => {
                            match string_from_utf8(vstd::slice::slice_to_vec(b.as_slice())) {
                                Some(s) => RowValue::Text(s),
                                None => RowValue::Blob(vstd::slice::slice_to_vec(b.as_slice())),
                            }
                        },
                    }
                } else {
                    RowValue::Blob(vstd::slice::slice_to_vec(b.as_slice()))
                }
            },
            other => other.duplicate(),
        }
    }
}

} // verus!
