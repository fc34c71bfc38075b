//! The overlay instance and its write path.
//!
//! An overlay instance binds one compression overlay to one underlying
//! table: the column list, the set of compressed columns, whether the table
//! has implicit row identity, and the codec level. The write path plans each
//! mutation — statement text plus bound parameters, compressed columns
//! already framed — for the adapter to execute against the store, and
//! decides the outcome of a uniqueness violation by the resolved conflict
//! policy.

use vstd::prelude::*;

use crate::codec::{DEFAULT_COMPRESSION_LEVEL, DecodeError, compress_with_marker,
    framed_decoding, framed_encoding};
use crate::conflict::{ConflictMode, WritePolicy, resolve, resolved_policy};
use crate::identity::RowIdentityTracker;
use crate::schema::{ColumnDescriptor, ColumnModel, column_name_list, column_names, find_column,
    is_text_type, lookup_column, parse_column_list, parse_schema, parsed_column_list,
    parsed_schema, pk_column_names, pk_columns, text_column_names, text_columns, SchemaError};
use crate::sql::{build_delete_by_keys, build_delete_by_rowid, build_insert, build_scan_select,
    build_update_by_keys, build_update_by_rowid, delete_by_keys_sql, delete_by_rowid_sql,
    eq_where_parts, insert_sql, scan_select_sql, schema_ddl, build_schema_ddl, update_by_keys_sql,
    update_by_rowid_sql};
use crate::text::names_contain;
use crate::values::{duplicate_row, RowValue, RowValueModel};

verus! {

/// A failure of the write path itself, as opposed to one the store reports.
#[derive(Debug, Clone, Copy, PartialEq, Eq, Structural)]
pub enum WriteError {
    /// A uniqueness violation that the active conflict policy propagates.
    ConstraintViolation,
    /// A delete addressed by a synthetic identifier whose declared key is
    /// composite and no longer cached: the target row cannot be determined.
    IdentityResolution,
}

/// A failure of the attach call.
#[derive(Debug, Clone)]
pub enum AttachError {
    /// A requested column that the table does not have.
    ColumnNotFound(String),
    /// A requested column whose declared type does not store text.
    ColumnNotText(String),
    /// No columns were requested and the table has no text-typed column.
    NoTextColumns,
}

/// Configuration for overlay creation.
#[derive(Debug)]
pub struct VTabConfig {
    pub underlying_table: String,
    pub compressed_columns: Vec<String>,
    pub all_columns: Vec<(String, String)>,
}

/// One mutation ready to issue against the underlying store: the statement
/// text and the values to bind, in placeholder order.
#[derive(Debug)]
pub struct Mutation {
    pub sql: String,
    pub params: Vec<RowValue>,
}

/// What the underlying store reported for an issued insert.
#[derive(Debug, Clone, Copy)]
pub enum StoreOutcome {
    /// The statement ran; for a store with implicit identity, the identity
    /// it assigned to the inserted row.
    Completed(i64),
    /// The statement hit a uniqueness violation.
    UniquenessViolation,
}

/// One cell as the write path stores it: a text cell of a compressed column
/// is framed, everything else passes through unchanged.
pub open spec fn encoded_cell(v: RowValueModel, compressed: bool, level: int) -> RowValueModel {
    match v {
        RowValueModel::Text(t) => if compressed {
            RowValueModel::Blob(framed_encoding(t, level))
        } else {
            v
        },
        _ => v,
    }
}

/// A whole row as the write path stores it.
pub open spec fn encoded_row(
    vals: Seq<RowValueModel>,
    cols: Seq<ColumnModel>,
    compressed: Seq<Seq<char>>,
    level: int,
) -> Seq<RowValueModel> {
    Seq::new(
        vals.len(),
        |i: int| encoded_cell(vals[i], i < cols.len() && compressed.contains(cols[i].name), level),
    )
}

/// The cells of the declared-key columns of a row, in table order.
pub open spec fn pk_cell_values(cols: Seq<ColumnModel>, vals: Seq<RowValueModel>) -> Seq<
    RowValueModel,
>
    decreases cols.len(),
{
    if cols.len() == 0 || vals.len() == 0 {
        Seq::empty()
    } else {
        let rest = pk_cell_values(cols.skip(1), vals.skip(1));
        if cols[0].is_primary_key {
            seq![vals[0]] + rest
        } else {
            rest
        }
    }
}

/// The key cell an update or delete matches on when the declared key is one
/// column: the cached tuple's cell when the identifier is cached, else the
/// identifier itself taken as the key value — valid exactly for the
/// single-integer-key case.
pub open spec fn resolved_key_cell(entries: Map<i64, Vec<RowValue>>, id: i64) -> RowValueModel {
    if entries.contains_key(id) && entries[id]@.len() >= 1 {
        (entries[id]@[0])@
    } else {
        RowValueModel::Integer(id)
    }
}

/// One active compression overlay, bound to one underlying table.
pub struct ZstdVTab {
    /// The renamed real table that holds the framed bytes.
    pub underlying_table: String,
    /// The names of the columns whose text values are framed.
    pub compressed_columns: Vec<String>,
    /// The ordered columns of the overlaid table.
    pub columns: Vec<ColumnDescriptor>,
    /// Whether the underlying table does without implicit row identity, so
    /// that row identity is solely the declared key.
    pub is_without_rowid: bool,
    /// The codec level every framed value of this overlay uses.
    pub compression_level: i32,
}

impl ZstdVTab {
    /// Whether the values of column `i` are framed.
    pub open spec fn spec_compressed_at(&self, i: int) -> bool {
        self.compressed_columns.deep_view().contains(self.columns.deep_view()[i].name)
    }

    /// Create the overlay instance from what the host hands the module: the
    /// underlying table name, the compressed-column list text, the schema
    /// text, and the probed identity kind. Returns the schema declaration
    /// the host presents the overlaid table under, beside the instance.
    pub fn connect(
        underlying_table: String,
        compressed_text: &str,
        schema_text: &str,
        is_without_rowid: bool,
    ) -> (r: Result<(String, ZstdVTab), SchemaError>)
        ensures
            match r {
                Ok(p) => parsed_schema(schema_text@) == Some(p.1.columns.deep_view()) && p.0@
                    == schema_ddl(p.1.columns.deep_view()) && p.1.underlying_table@
                    == underlying_table@ && p.1.compressed_columns.deep_view()
                    == parsed_column_list(compressed_text@) && p.1.is_without_rowid
                    == is_without_rowid && p.1.compression_level == DEFAULT_COMPRESSION_LEVEL,
                Err(_) => parsed_schema(schema_text@) is None,
            },
    {
        let columns = match parse_schema(schema_text) {
            Ok(cols) => cols,
            Err(e) => {
                return Err(e);
            },
        };
        let compressed_columns = parse_column_list(compressed_text);
        let ddl = build_schema_ddl(&columns);
        let vtab = ZstdVTab {
            underlying_table,
            compressed_columns,
            columns,
            is_without_rowid,
            compression_level: DEFAULT_COMPRESSION_LEVEL,
        };
        Ok((ddl, vtab))
    }

    /// Frame the text cells of the compressed columns of one row; every
    /// other cell passes through unchanged.
    ///
    /// Compression is transparent: every framed cell decodes back to exactly
    /// the text that was handed in.
    pub fn encode_row(&self, values: &Vec<RowValue>) -> (r: Vec<RowValue>)
        requires
            values@.len() == self.columns@.len(),
        ensures
            r.deep_view() == encoded_row(
                values.deep_view(),
                self.columns.deep_view(),
                self.compressed_columns.deep_view(),
                self.compression_level as int,
            ),
            forall|j: int|
                0 <= j < values@.len() && (#[trigger] values.deep_view()[j]) is Text
                    && self.spec_compressed_at(j) ==> framed_decoding(r.deep_view()[j]->Blob_0)
                    == Ok::<Seq<char>, DecodeError>(values.deep_view()[j]->Text_0),
    {
        let ghost vals = values.deep_view();
        let ghost cols = self.columns.deep_view();
        let ghost comp = self.compressed_columns.deep_view();
        let ghost level = self.compression_level as int;
        let mut out: Vec<RowValue> = Vec::new();
        let mut i: usize = 0;
        while i < values.len()
            invariant
                vals == values.deep_view(),
                cols == self.columns.deep_view(),
                comp == self.compressed_columns.deep_view(),
                level == self.compression_level as int,
                values@.len() == self.columns@.len(),
                0 <= i <= values.len(),
                out.deep_view() == encoded_row(vals.take(i as int), cols, comp, level),
                forall|j: int|
                    0 <= j < i && (#[trigger] vals[j]) is Text && comp.contains(cols[j].name)
                        ==> framed_decoding(out.deep_view()[j]->Blob_0) == Ok::<
                        Seq<char>,
                        DecodeError,
                    >(vals[j]->Text_0),
            decreases values.len() - i,
        {
            let ghost old_out = out.deep_view();
            let compressed = names_contain(&self.compressed_columns, self.columns[i].name.as_str());
            let cell = if compressed {
                match &values[i] {
                    RowValue::Text(s) => RowValue::Blob(
                        compress_with_marker(s.as_str(), self.compression_level),
                    ),
                    other => other.duplicate(),
                }
            } else {
                values[i].duplicate()
            };
            proof {
                assert(cell@ == encoded_cell(vals[i as int], compressed, level));
            }
            out.push(cell);
            proof {
                assert(out.deep_view() =~= old_out.push(
                    encoded_cell(vals[i as int], compressed, level),
                ));
                assert(out.deep_view() =~= encoded_row(vals.take(i as int + 1), cols, comp, level));
                assert(forall|j: int| 0 <= j < i ==> out.deep_view()[j] == old_out[j]);
            }
            i = i + 1;
        }
        proof {
            assert(vals.take(values.len() as int) =~= vals);
            assert(encoded_row(vals.take(values.len() as int), cols, comp, level) =~= encoded_row(
                vals,
                cols,
                comp,
                level,
            ));
        }
        out
    }

    /// Plan one insert: compressed columns framed, and the statement issued
    /// replace-capable up front exactly when the directive resolves to
    /// native replace semantics.
    pub fn plan_insert(&self, values: &Vec<RowValue>, mode: ConflictMode) -> (r: Mutation)
        requires
            values@.len() == self.columns@.len(),
        ensures
            r.sql@ == insert_sql(
                self.underlying_table@,
                column_names(self.columns.deep_view()),
                resolved_policy(mode) is NativeReplace,
            ),
            r.params.deep_view() == encoded_row(
                values.deep_view(),
                self.columns.deep_view(),
                self.compressed_columns.deep_view(),
                self.compression_level as int,
            ),
            forall|j: int|
                0 <= j < values@.len() && (#[trigger] values.deep_view()[j]) is Text
                    && self.spec_compressed_at(j) ==> framed_decoding(
                    r.params.deep_view()[j]->Blob_0,
                ) == Ok::<Seq<char>, DecodeError>(values.deep_view()[j]->Text_0),
    {
        let params = self.encode_row(values);
        let names = column_name_list(&self.columns);
        let replace = match resolve(mode) {
            WritePolicy::NativeReplace => true,
            _ => false,
        };
        let sql = build_insert(self.underlying_table.as_str(), &names, replace);
        Mutation { sql, params }
    }

    /// Decide what an executed insert reports to the host: on completion the
    /// store's identity (or the no-identity sentinel 0 where the table does
    /// without implicit identity), and on a uniqueness violation success
    /// without a persisted row where the policy suppresses, the violation
    /// itself where it propagates.
    pub fn insert_outcome(&self, mode: ConflictMode, outcome: StoreOutcome) -> (r: Result<
        i64,
        WriteError,
    >)
        ensures
            match outcome {
                StoreOutcome::Completed(rowid) => r == Ok::<i64, WriteError>(
                    if self.is_without_rowid {
                        0i64
                    } else {
                        rowid
                    },
                ),
                StoreOutcome::UniquenessViolation => r == if resolved_policy(mode) is Suppress {
                    Ok::<i64, WriteError>(0i64)
                } else {
                    Err::<i64, WriteError>(WriteError::ConstraintViolation)
                },
            },
    {
        match outcome {
            StoreOutcome::Completed(rowid) => {
                if self.is_without_rowid {
                    Ok(0)
                } else {
                    Ok(rowid)
                }
            },
            StoreOutcome::UniquenessViolation => {
                match resolve(mode) {
                    WritePolicy::Suppress => Ok(0),
                    _ => Err(WriteError::ConstraintViolation),
                }
            },
        }
    }

    /// Plan one update: every column set to its (framed) new value, the
    /// target row resolved by implicit identity, by the cached declared-key
    /// tuple of the scan-time identifier, or — only where nothing is cached —
    /// by the single key value taken as the identifier, or by the declared-key
    /// cells of the new values for a composite key. A keyed table without any
    /// declared-key column cannot address a row at all.
    pub fn plan_update(
        &self,
        tracker: &RowIdentityTracker,
        old_identity: i64,
        new_identity: i64,
        values: &Vec<RowValue>,
    ) -> (r: Result<Mutation, WriteError>)
        requires
            values@.len() == self.columns@.len(),
        ensures
            ({
                let names = column_names(self.columns.deep_view());
                let enc = encoded_row(
                    values.deep_view(),
                    self.columns.deep_view(),
                    self.compressed_columns.deep_view(),
                    self.compression_level as int,
                );
                let pk = pk_column_names(self.columns.deep_view());
                if !self.is_without_rowid {
                    r matches Ok(m) && m.sql@ == update_by_rowid_sql(
                        self.underlying_table@,
                        names,
                        old_identity != new_identity,
                    ) && m.params.deep_view() == enc + (if old_identity != new_identity {
                        seq![RowValueModel::Integer(new_identity)]
                    } else {
                        Seq::empty()
                    }) + seq![RowValueModel::Integer(old_identity)]
                } else if pk.len() == 0 {
                    r == Err::<Mutation, WriteError>(WriteError::IdentityResolution)
                } else if pk.len() == 1 {
                    r matches Ok(m) && m.sql@ == update_by_keys_sql(
                        self.underlying_table@,
                        names,
                        pk,
                    ) && m.params.deep_view() == enc.push(
                        resolved_key_cell(tracker.entries(), old_identity),
                    )
                } else {
                    r matches Ok(m) && m.sql@ == update_by_keys_sql(
                        self.underlying_table@,
                        names,
                        pk,
                    ) && m.params.deep_view() == enc + (if tracker.entries().contains_key(
                        old_identity,
                    ) {
                        tracker.entries()[old_identity].deep_view()
                    } else {
                        pk_cell_values(self.columns.deep_view(), values.deep_view())
                    })
                }
            }),
            forall|j: int|
                0 <= j < values@.len() && (#[trigger] values.deep_view()[j]) is Text
                    && self.spec_compressed_at(j) ==> (r matches Ok(m) ==> framed_decoding(
                    m.params.deep_view()[j]->Blob_0,
                ) == Ok::<Seq<char>, DecodeError>(values.deep_view()[j]->Text_0)),
    {
        let mut params = self.encode_row(values);
        let names = column_name_list(&self.columns);
        if !self.is_without_rowid {
            let rowid_change = old_identity != new_identity;
            if rowid_change {
                params.push(RowValue::Integer(new_identity));
            }
            params.push(RowValue::Integer(old_identity));
            let sql = build_update_by_rowid(self.underlying_table.as_str(), &names, rowid_change);
            Ok(Mutation { sql, params })
        } else {
            let pk = pk_columns(&self.columns);
            if pk.len() == 0 {
                Err(WriteError::IdentityResolution)
            } else if pk.len() == 1 {
                let key_cell = match tracker.lookup(old_identity) {
                    Some(cached) => {
                        if cached.len() >= 1 {
                            cached[0].duplicate()
                        } else {
                            RowValue::Integer(old_identity)
                        }
                    },
                    None => RowValue::Integer(old_identity),
                };
                params.push(key_cell);
                let sql = build_update_by_keys(self.underlying_table.as_str(), &names, &pk);
                Ok(Mutation { sql, params })
            } else {
                let ghost enc = params.deep_view();
                let mut rest = match tracker.lookup(old_identity) {
                    Some(cached) => duplicate_row(cached),
                    None => self.pk_cells(values),
                };
                let ghost key_models = rest.deep_view();
                params.append(&mut rest);
                proof {
                    assert(params.deep_view() =~= enc + key_models);
                }
                let sql = build_update_by_keys(self.underlying_table.as_str(), &names, &pk);
                Ok(Mutation { sql, params })
            }
        }
    }

    /// The declared-key cells of one row, in table order.
    pub fn pk_cells(&self, values: &Vec<RowValue>) -> (r: Vec<RowValue>)
        requires
            values@.len() == self.columns@.len(),
        ensures
            r.deep_view() == pk_cell_values(self.columns.deep_view(), values.deep_view()),
    {
        let ghost cols = self.columns.deep_view();
        let ghost vals = values.deep_view();
        let mut out: Vec<RowValue> = Vec::new();
        let mut i: usize = 0;
        proof {
            assert(cols.skip(0) =~= cols);
            assert(vals.skip(0) =~= vals);
            assert(out.deep_view() =~= Seq::<RowValueModel>::empty());
        }
        while i < values.len()
            invariant
                cols == self.columns.deep_view(),
                vals == values.deep_view(),
                values@.len() == self.columns@.len(),
                0 <= i <= values.len(),
                pk_cell_values(cols, vals) == out.deep_view() + pk_cell_values(
                    cols.skip(i as int),
                    vals.skip(i as int),
                ),
            decreases values.len() - i,
        {
            proof {
                assert(cols.skip(i as int)[0] == cols[i as int]);
                assert(vals.skip(i as int)[0] == vals[i as int]);
                assert(cols.skip(i as int).skip(1) =~= cols.skip(i as int + 1));
                assert(vals.skip(i as int).skip(1) =~= vals.skip(i as int + 1));
            }
            let ghost old_out = out.deep_view();
            if self.columns[i].is_primary_key {
                out.push(values[i].duplicate());
                proof {
                    assert(out.deep_view() =~= old_out.push(vals[i as int]));
                    assert(old_out + (seq![vals[i as int]] + pk_cell_values(
                        cols.skip(i as int + 1),
                        vals.skip(i as int + 1),
                    )) =~= out.deep_view() + pk_cell_values(
                        cols.skip(i as int + 1),
                        vals.skip(i as int + 1),
                    ));
                }
            }
            i = i + 1;
        }
        proof {
            assert(cols.skip(values.len() as int) =~= Seq::<ColumnModel>::empty());
            assert(out.deep_view() + pk_cell_values(
                cols.skip(values.len() as int),
                vals.skip(values.len() as int),
            ) =~= out.deep_view());
        }
        out
    }

    /// Plan one delete: the target row resolved by implicit identity, by the
    /// cached declared-key tuple of a synthetic identifier, or — lacking a
    /// cache entry — by taking the identifier as the single declared key. A
    /// composite declared key with no cached mapping, or a keyed table with
    /// no declared-key column at all, cannot determine which row was meant.
    pub fn plan_delete(&self, tracker: &RowIdentityTracker, identity: i64) -> (r: Result<
        Mutation,
        WriteError,
    >)
        ensures
            ({
                let pk = pk_column_names(self.columns.deep_view());
                if !self.is_without_rowid {
                    r matches Ok(m) && m.sql@ == delete_by_rowid_sql(self.underlying_table@)
                        && m.params.deep_view() == seq![RowValueModel::Integer(identity)]
                } else if pk.len() == 0 {
                    r == Err::<Mutation, WriteError>(WriteError::IdentityResolution)
                } else if tracker.entries().contains_key(identity) {
                    r matches Ok(m) && m.sql@ == delete_by_keys_sql(self.underlying_table@, pk)
                        && m.params.deep_view() == tracker.entries()[identity].deep_view()
                } else if pk.len() == 1 {
                    r matches Ok(m) && m.sql@ == delete_by_keys_sql(self.underlying_table@, pk)
                        && m.params.deep_view() == seq![RowValueModel::Integer(identity)]
                } else {
                    r == Err::<Mutation, WriteError>(WriteError::IdentityResolution)
                }
            }),
    {
        if !self.is_without_rowid {
            let sql = build_delete_by_rowid(self.underlying_table.as_str());
            let mut params: Vec<RowValue> = Vec::new();
            params.push(RowValue::Integer(identity));
            proof {
                assert(params.deep_view() =~= seq![RowValueModel::Integer(identity)]);
            }
            return Ok(Mutation { sql, params });
        }
        let pk = pk_columns(&self.columns);
        if pk.len() == 0 {
            return Err(WriteError::IdentityResolution);
        }
        match tracker.lookup(identity) {
            Some(cached) => {
                let params = duplicate_row(cached);
                let sql = build_delete_by_keys(self.underlying_table.as_str(), &pk);
                Ok(Mutation { sql, params })
            },
            None => {
                if pk.len() == 1 {
                    let sql = build_delete_by_keys(self.underlying_table.as_str(), &pk);
                    let mut params: Vec<RowValue> = Vec::new();
                    params.push(RowValue::Integer(identity));
                    proof {
                        assert(params.deep_view() =~= seq![RowValueModel::Integer(identity)]);
                    }
                    Ok(Mutation { sql, params })
                } else {
                    Err(WriteError::IdentityResolution)
                }
            },
        }
    }

    /// Build the select statement one scan opens, with the plan token
    /// deciding the WHERE clause; also how many bound arguments it consumes.
    pub fn plan_select(&self, idx_num: u32) -> (r: (String, usize))
        ensures
            r.0@ == scan_select_sql(
                self.underlying_table@,
                column_names(self.columns.deep_view()),
                self.is_without_rowid,
                idx_num,
            ),
            r.1 == eq_where_parts(column_names(self.columns.deep_view()), idx_num, 0).len(),
    {
        let names = column_name_list(&self.columns);
        build_scan_select(self.underlying_table.as_str(), &names, self.is_without_rowid, idx_num)
    }
}

/// The first requested column that cannot be compressed: its name and
/// whether the table has it at all (then with a non-text type).
pub open spec fn first_unusable(cols: Seq<ColumnModel>, reqs: Seq<Seq<char>>) -> Option<
    (Seq<char>, bool),
>
    decreases reqs.len(),
{
    if reqs.len() == 0 {
        None
    } else {
        match find_column(cols, reqs[0]) {
            Some(c) => if is_text_type(c.declared_type) {
                first_unusable(cols, reqs.skip(1))
            } else {
                Some((reqs[0], true))
            },
            None => Some((reqs[0], false)),
        }
    }
}

/// Finding nothing unusable means exactly that every requested column
/// exists and stores text.
pub proof fn lemma_no_unusable_means_all_text(cols: Seq<ColumnModel>, reqs: Seq<Seq<char>>)
    ensures
        first_unusable(cols, reqs) is None <==> forall|j: int|
            0 <= j < reqs.len() ==> ((#[trigger] find_column(cols, reqs[j])) matches Some(c)
                && is_text_type(c.declared_type)),
    decreases reqs.len(),
{
    if reqs.len() > 0 {
        lemma_no_unusable_means_all_text(cols, reqs.skip(1));
        assert(forall|j: int| 0 <= j < reqs.skip(1).len() ==> reqs.skip(1)[j] == reqs[j + 1]);
        if first_unusable(cols, reqs) is None {
            assert(first_unusable(cols, reqs.skip(1)) is None);
            assert forall|j: int| 0 <= j < reqs.len() implies ((#[trigger] find_column(
                cols,
                reqs[j],
            )) matches Some(c) && is_text_type(c.declared_type)) by {
                if j > 0 {
                    assert(reqs.skip(1)[j - 1] == reqs[j]);
                }
            }
        }
        if forall|j: int|
            0 <= j < reqs.len() ==> ((#[trigger] find_column(cols, reqs[j])) matches Some(c)
                && is_text_type(c.declared_type)) {
            assert(find_column(cols, reqs[0]) matches Some(c) && is_text_type(c.declared_type));
            assert forall|j: int| 0 <= j < reqs.skip(1).len() implies ((#[trigger] find_column(
                cols,
                reqs.skip(1)[j],
            )) matches Some(c) && is_text_type(c.declared_type)) by {
                assert(reqs.skip(1)[j] == reqs[j + 1]);
            }
            assert(first_unusable(cols, reqs.skip(1)) is None);
            assert(first_unusable(cols, reqs) is None);
        }
    }
}

/// Check that every requested column exists and stores text, reporting the
/// first that does not.
pub fn validate_compress_columns(cols: &Vec<ColumnDescriptor>, requested: &Vec<String>) -> (r:
    Result<(), AttachError>)
    ensures
        match r {
            Ok(()) => first_unusable(cols.deep_view(), requested.deep_view()) is None,
            Err(AttachError::ColumnNotFound(n)) => first_unusable(
                cols.deep_view(),
                requested.deep_view(),
            ) == Some((n@, false)),
            Err(AttachError::ColumnNotText(n)) => first_unusable(
                cols.deep_view(),
                requested.deep_view(),
            ) == Some((n@, true)),
            Err(AttachError::NoTextColumns) => false,
        },
{
    let ghost cs = cols.deep_view();
    let ghost rs = requested.deep_view();
    let mut i: usize = 0;
    proof {
        assert(rs.skip(0) =~= rs);
    }
    while i < requested.len()
        invariant
            cs == cols.deep_view(),
            rs == requested.deep_view(),
            0 <= i <= requested.len(),
            first_unusable(cs, rs) == first_unusable(cs, rs.skip(i as int)),
        decreases requested.len() - i,
    {
        proof {
            assert(rs.skip(i as int)[0] == rs[i as int]);
            assert(rs.skip(i as int).skip(1) =~= rs.skip(i as int + 1));
        }
        match lookup_column(cols, requested[i].as_str()) {
            Some(c) => {
                if !crate::schema::declared_type_is_text(c.declared_type.as_str()) {
                    return Err(AttachError::ColumnNotText(requested[i].clone()));
                }
            },
            None => {
                return Err(AttachError::ColumnNotFound(requested[i].clone()));
            },
        }
        i = i + 1;
    }
    proof {
        assert(rs.skip(requested.len() as int) =~= Seq::<Seq<char>>::empty());
    }
    Ok(())
}

/// The columns compressed when the attach names none: every text-typed
/// column; a table without any cannot be overlaid.
pub fn default_compress_columns(cols: &Vec<ColumnDescriptor>) -> (r: Result<
    Vec<String>,
    AttachError,
>)
    ensures
        match r {
            Ok(names) => names.deep_view() == text_column_names(cols.deep_view())
                && names.deep_view().len() > 0,
            Err(AttachError::NoTextColumns) => text_column_names(cols.deep_view()).len() == 0,
            Err(_) => false,
        },
{
    let names = text_columns(cols);
    if names.len() == 0 {
        Err(AttachError::NoTextColumns)
    } else {
        Ok(names)
    }
}

} // verus!
