use rusqlite::types::ValueRef;
use rusqlite::Connection;

use sqlite_zstd::conflict::ConflictMode;
use sqlite_zstd::plan::{plan_scan, PredicateInfo, PredicateOp};
use sqlite_zstd::cursor::ZstdCursor;
use sqlite_zstd::identity::RowIdentityTracker;
use sqlite_zstd::overlay::{Mutation, StoreOutcome, WriteError, ZstdVTab};
use sqlite_zstd::values::RowValue;

fn to_sql_value(v: &RowValue) -> rusqlite::types::Value {
    match v {
        RowValue::Null => rusqlite::types::Value::Null,
        RowValue::Integer(i) => rusqlite::types::Value::Integer(*i),
        RowValue::Real(bits) => rusqlite::types::Value::Real(f64::from_bits(*bits)),
        RowValue::Text(s) => rusqlite::types::Value::Text(s.clone()),
        RowValue::Blob(b) => rusqlite::types::Value::Blob(b.clone()),
    }
}

fn from_sql_ref(v: ValueRef<'_>) -> RowValue {
    match v {
        ValueRef::Null => RowValue::Null,
        ValueRef::Integer(i) => RowValue::Integer(i),
        ValueRef::Real(f) => RowValue::Real(f.to_bits()),
        ValueRef::Text(t) => RowValue::Text(String::from_utf8(t.to_vec()).unwrap()),
        ValueRef::Blob(b) => RowValue::Blob(b.to_vec()),
    }
}

fn run_mutation(conn: &Connection, m: &Mutation) -> rusqlite::Result<usize> {
    let params: Vec<rusqlite::types::Value> = m.params.iter().map(to_sql_value).collect();
    conn.execute(&m.sql, rusqlite::params_from_iter(params))
}

/// Execute an insert plan and report what the store said, as the write path
/// classifies it.
fn run_insert(conn: &Connection, m: &Mutation) -> StoreOutcome {
    match run_mutation(conn, m) {
        Ok(_) => StoreOutcome::Completed(conn.last_insert_rowid()),
        Err(rusqlite::Error::SqliteFailure(err, _))
            if err.code == rusqlite::ErrorCode::ConstraintViolation =>
        {
            StoreOutcome::UniquenessViolation
        }
        Err(e) => panic!("unexpected store error: {e}"),
    }
}

/// Run one full scan through the cursor, returning the presented rows
/// (identity, presented column values).
fn run_scan(
    conn: &Connection,
    vtab: &ZstdVTab,
    tracker: &mut RowIdentityTracker,
    cursor: &mut ZstdCursor,
    idx_num: u32,
    args: &[RowValue],
) -> Vec<(i64, Vec<RowValue>)> {
    let (sql, n_args) = vtab.plan_select(idx_num);
    assert_eq!(n_args, args.len());
    let mut stmt = conn.prepare(&sql).unwrap();
    let params: Vec<rusqlite::types::Value> = args.iter().map(to_sql_value).collect();
    let mut rows = stmt.query(rusqlite::params_from_iter(params)).unwrap();
    cursor.begin_filter();
    let width = vtab.columns.len() + if vtab.is_without_rowid { 0 } else { 1 };
    let mut out = Vec::new();
    loop {
        match rows.next().unwrap() {
            Some(row) => {
                let mut vals: Vec<RowValue> = Vec::new();
                for i in 0..width {
                    vals.push(from_sql_ref(row.get_ref(i).unwrap()));
                }
                cursor.observe_row(vtab, tracker, vals);
                let mut presented = Vec::new();
                for i in 0..vtab.columns.len() {
                    presented.push(cursor.read_column(vtab, i));
                }
                out.push((cursor.rowid(), presented));
            }
            None => {
                cursor.observe_end();
                assert!(cursor.eof());
                break;
            }
        }
    }
    out
}

fn text_of(v: &RowValue) -> String {
    match v {
        RowValue::Text(s) => s.clone(),
        other => panic!("expected a text cell, got {other:?}"),
    }
}

/// Scenario: a table with implicit identity, compressing only `content`. A
/// long repetitive text reads back unchanged through the overlay while the
/// underlying table holds a compressed frame.
#[test]
fn long_text_roundtrips_and_is_stored_compressed() {
    let conn = Connection::open_in_memory().unwrap();
    conn.execute(
        "CREATE TABLE _zstd_docs (id INTEGER PRIMARY KEY, title TEXT, content TEXT)",
        [],
    )
    .unwrap();
    let (ddl, vtab) = ZstdVTab::connect(
        "_zstd_docs".to_string(),
        "content",
        "id:INTEGER:PK|title:TEXT|content:TEXT",
        false,
    )
    .unwrap();
    assert_eq!(
        ddl,
        "CREATE TABLE x(\"id\" INTEGER PRIMARY KEY, \"title\" TEXT, \"content\" TEXT)"
    );

    let long_text = "x".repeat(3000);
    let insert = vtab.plan_insert(
        &vec![
            RowValue::Null,
            RowValue::Text("My Doc".to_string()),
            RowValue::Text(long_text.clone()),
        ],
        ConflictMode::Abort,
    );
    let outcome = run_insert(&conn, &insert);
    let rowid = vtab.insert_outcome(ConflictMode::Abort, outcome).unwrap();
    assert_eq!(rowid, 1);

    // Reading through the overlay returns the original text.
    let mut tracker = RowIdentityTracker::new();
    let mut cursor = ZstdCursor::new();
    let rows = run_scan(&conn, &vtab, &mut tracker, &mut cursor, 0, &[]);
    assert_eq!(rows.len(), 1);
    assert_eq!(text_of(&rows[0].1[1]), "My Doc");
    assert_eq!(text_of(&rows[0].1[2]), long_text);

    // The underlying table holds a compressed frame: marker byte 0x01 and
    // fewer bytes than the text plus its marker.
    let stored: Vec<u8> = conn
        .query_row("SELECT content FROM _zstd_docs", [], |row| row.get(0))
        .unwrap();
    assert_eq!(stored[0], 0x01);
    assert!(stored.len() < 3001);
}

/// Scenario: a short text is stored raw — marker byte 0x00 followed by
/// exactly the UTF-8 bytes.
#[test]
fn short_text_is_stored_raw() {
    let conn = Connection::open_in_memory().unwrap();
    conn.execute(
        "CREATE TABLE _zstd_docs (id INTEGER PRIMARY KEY, title TEXT, content TEXT)",
        [],
    )
    .unwrap();
    let (_, vtab) = ZstdVTab::connect(
        "_zstd_docs".to_string(),
        "content",
        "id:INTEGER:PK|title:TEXT|content:TEXT",
        false,
    )
    .unwrap();

    let insert = vtab.plan_insert(
        &vec![
            RowValue::Null,
            RowValue::Text("T".to_string()),
            RowValue::Text("Hi".to_string()),
        ],
        ConflictMode::Abort,
    );
    run_insert(&conn, &insert);

    let stored: Vec<u8> = conn
        .query_row("SELECT content FROM _zstd_docs", [], |row| row.get(0))
        .unwrap();
    assert_eq!(stored[0], 0x00);
    assert_eq!(&stored[1..], b"Hi");
}

/// Scenario: a table whose identity is a non-integer declared key. Two rows
/// go in; the first is deleted by its scan-time identifier; a fresh scan
/// yields exactly the second row.
#[test]
fn delete_by_synthetic_identifier_on_keyed_table() {
    let conn = Connection::open_in_memory().unwrap();
    conn.execute(
        "CREATE TABLE _zstd_kv (key TEXT PRIMARY KEY, value TEXT) WITHOUT ROWID",
        [],
    )
    .unwrap();
    let (_, vtab) = ZstdVTab::connect(
        "_zstd_kv".to_string(),
        "value",
        "key:TEXT:PK|value:TEXT",
        true,
    )
    .unwrap();

    for (k, v) in [("alpha", "first value"), ("beta", "second value")] {
        let insert = vtab.plan_insert(
            &vec![
                RowValue::Text(k.to_string()),
                RowValue::Text(v.to_string()),
            ],
            ConflictMode::Abort,
        );
        run_insert(&conn, &insert);
    }

    let mut tracker = RowIdentityTracker::new();
    let mut cursor = ZstdCursor::new();
    let rows = run_scan(&conn, &vtab, &mut tracker, &mut cursor, 0, &[]);
    assert_eq!(rows.len(), 2);
    // Non-integer key: synthetic per-scan identifiers 1 and 2.
    assert_eq!(rows[0].0, 1);
    assert_eq!(rows[1].0, 2);
    let first_key = text_of(&rows[0].1[0]);

    let delete = vtab.plan_delete(&tracker, rows[0].0).unwrap();
    run_mutation(&conn, &delete).unwrap();

    tracker.clear();
    let rows_after = run_scan(&conn, &vtab, &mut tracker, &mut cursor, 0, &[]);
    assert_eq!(rows_after.len(), 1);
    let remaining_key = text_of(&rows_after[0].1[0]);
    assert_ne!(remaining_key, first_key);
    assert_eq!(remaining_key, "beta");
}

/// Scenario: a duplicate key under the Ignore directive leaves the original
/// row untouched; under Replace the value is updated; the row count stays 1
/// in both cases.
#[test]
fn duplicate_key_honours_ignore_and_replace() {
    let conn = Connection::open_in_memory().unwrap();
    conn.execute(
        "CREATE TABLE _zstd_kv (key TEXT PRIMARY KEY, value TEXT) WITHOUT ROWID",
        [],
    )
    .unwrap();
    let (_, vtab) = ZstdVTab::connect(
        "_zstd_kv".to_string(),
        "value",
        "key:TEXT:PK|value:TEXT",
        true,
    )
    .unwrap();

    let insert = |value: &str, mode: ConflictMode| -> Result<i64, WriteError> {
        let m = vtab.plan_insert(
            &vec![
                RowValue::Text("config".to_string()),
                RowValue::Text(value.to_string()),
            ],
            mode,
        );
        let outcome = run_insert(&conn, &m);
        vtab.insert_outcome(mode, outcome)
    };
    let read_value = || -> String {
        let mut tracker = RowIdentityTracker::new();
        let mut cursor = ZstdCursor::new();
        let rows = run_scan(&conn, &vtab, &mut tracker, &mut cursor, 0, &[]);
        assert_eq!(rows.len(), 1);
        text_of(&rows[0].1[1])
    };
    let count = || -> i64 {
        conn.query_row("SELECT COUNT(*) FROM _zstd_kv", [], |row| row.get(0))
            .unwrap()
    };

    assert_eq!(insert("initial", ConflictMode::Abort), Ok(0));
    assert_eq!(read_value(), "initial");
    assert_eq!(count(), 1);

    // Ignore: success is reported, nothing is persisted.
    assert_eq!(insert("ignored", ConflictMode::Ignore), Ok(0));
    assert_eq!(read_value(), "initial");
    assert_eq!(count(), 1);

    // Abort: the violation propagates.
    assert_eq!(
        insert("rejected", ConflictMode::Abort),
        Err(WriteError::ConstraintViolation)
    );
    assert_eq!(read_value(), "initial");

    // Replace: issued replace-capable up front, the value is updated.
    assert_eq!(insert("replaced", ConflictMode::Replace), Ok(0));
    assert_eq!(read_value(), "replaced");
    assert_eq!(count(), 1);
}

/// Scenario: an equality predicate on the declared key is pushed down. The
/// planner marks the column omittable and the scan returns exactly the
/// matching row.
#[test]
fn equality_pushdown_returns_exactly_the_matching_row() {
    let conn = Connection::open_in_memory().unwrap();
    conn.execute(
        "CREATE TABLE _zstd_kv (key TEXT PRIMARY KEY, value TEXT) WITHOUT ROWID",
        [],
    )
    .unwrap();
    let (_, vtab) = ZstdVTab::connect(
        "_zstd_kv".to_string(),
        "value",
        "key:TEXT:PK|value:TEXT",
        true,
    )
    .unwrap();

    for (k, v) in [("a", "va"), ("b", "vb"), ("c", "vc")] {
        let m = vtab.plan_insert(
            &vec![
                RowValue::Text(k.to_string()),
                RowValue::Text(v.to_string()),
            ],
            ConflictMode::Abort,
        );
        run_insert(&conn, &m);
    }

    // The host offers an equality predicate on column 0 (the declared key).
    let plan = plan_scan(&vec![PredicateInfo {
        column: 0,
        op: PredicateOp::Eq,
        usable: true,
    }]);
    assert_eq!(plan.omit, vec![true]);
    assert_eq!(plan.idx_num, 1);

    let mut tracker = RowIdentityTracker::new();
    let mut cursor = ZstdCursor::new();
    let rows = run_scan(
        &conn,
        &vtab,
        &mut tracker,
        &mut cursor,
        plan.idx_num,
        &[RowValue::Text("b".to_string())],
    );
    assert_eq!(rows.len(), 1);
    assert_eq!(text_of(&rows[0].1[0]), "b");
    assert_eq!(text_of(&rows[0].1[1]), "vb");
}

/// An integer declared key is used directly as the scan-time identifier, and
/// updates and deletes address it without any cache entry.
#[test]
fn integer_key_is_its_own_identifier() {
    let conn = Connection::open_in_memory().unwrap();
    conn.execute(
        "CREATE TABLE _zstd_items (id INTEGER PRIMARY KEY, data TEXT) WITHOUT ROWID",
        [],
    )
    .unwrap();
    let (_, vtab) = ZstdVTab::connect(
        "_zstd_items".to_string(),
        "data",
        "id:INTEGER:PK|data:TEXT",
        true,
    )
    .unwrap();

    for (id, data) in [(100, "item 100"), (200, "item 200")] {
        let m = vtab.plan_insert(
            &vec![
                RowValue::Integer(id),
                RowValue::Text(data.to_string()),
            ],
            ConflictMode::Abort,
        );
        run_insert(&conn, &m);
    }

    let mut tracker = RowIdentityTracker::new();
    let mut cursor = ZstdCursor::new();
    let rows = run_scan(&conn, &vtab, &mut tracker, &mut cursor, 0, &[]);
    assert_eq!(rows.len(), 2);
    assert_eq!(rows[0].0, 100);
    assert_eq!(rows[1].0, 200);
    // Integer keys go uncached.
    assert!(tracker.lookup(100).is_none());

    // Update row 100 in place through the write path.
    let update = vtab
        .plan_update(
            &tracker,
            100,
            100,
            &vec![
                RowValue::Integer(100),
                RowValue::Text("updated 100".to_string()),
            ],
        )
        .unwrap();
    run_mutation(&conn, &update).unwrap();
    let rows = run_scan(&conn, &vtab, &mut tracker, &mut cursor, 0, &[]);
    assert_eq!(text_of(&rows[0].1[1]), "updated 100");

    // Delete row 100 by its identifier.
    let delete = vtab.plan_delete(&tracker, 100).unwrap();
    run_mutation(&conn, &delete).unwrap();
    let rows = run_scan(&conn, &vtab, &mut tracker, &mut cursor, 0, &[]);
    assert_eq!(rows.len(), 1);
    assert_eq!(rows[0].0, 200);
}

/// A composite declared key without a cached mapping cannot resolve the
/// target row of a delete.
#[test]
fn composite_key_delete_without_cache_is_an_error() {
    let (_, vtab) = ZstdVTab::connect(
        "_zstd_metrics".to_string(),
        "value",
        "source:TEXT:PK|metric:TEXT:PK|value:TEXT",
        true,
    )
    .unwrap();
    let tracker = RowIdentityTracker::new();
    let r = vtab.plan_delete(&tracker, 7);
    assert!(matches!(r, Err(WriteError::IdentityResolution)));
}

/// A composite-keyed row is deleted through the identity cached during the
/// scan that yielded it.
#[test]
fn composite_key_delete_resolves_through_the_cache() {
    let conn = Connection::open_in_memory().unwrap();
    conn.execute(
        "CREATE TABLE _zstd_metrics (source TEXT, metric TEXT, value TEXT, PRIMARY KEY (source, metric)) WITHOUT ROWID",
        [],
    )
    .unwrap();
    let (_, vtab) = ZstdVTab::connect(
        "_zstd_metrics".to_string(),
        "value",
        "source:TEXT:PK|metric:TEXT:PK|value:TEXT",
        true,
    )
    .unwrap();

    for (s, m, v) in [("server1", "cpu", "45%"), ("server1", "mem", "60%")] {
        let ins = vtab.plan_insert(
            &vec![
                RowValue::Text(s.to_string()),
                RowValue::Text(m.to_string()),
                RowValue::Text(v.to_string()),
            ],
            ConflictMode::Abort,
        );
        run_insert(&conn, &ins);
    }

    let mut tracker = RowIdentityTracker::new();
    let mut cursor = ZstdCursor::new();
    let rows = run_scan(&conn, &vtab, &mut tracker, &mut cursor, 0, &[]);
    assert_eq!(rows.len(), 2);
    // Find the cpu row's synthetic identifier and delete through the cache.
    let cpu_row = rows
        .iter()
        .find(|(_, vals)| text_of(&vals[1]) == "cpu")
        .unwrap();
    let delete = vtab.plan_delete(&tracker, cpu_row.0).unwrap();
    run_mutation(&conn, &delete).unwrap();

    let count: i64 = conn
        .query_row("SELECT COUNT(*) FROM _zstd_metrics", [], |row| row.get(0))
        .unwrap();
    assert_eq!(count, 1);
    let left: String = conn
        .query_row("SELECT metric FROM _zstd_metrics", [], |row| row.get(0))
        .unwrap();
    assert_eq!(left, "mem");
}

/// Values written without any marker byte (before compression was enabled)
/// are reinterpreted as plain text on read; unintelligible bytes pass
/// through unchanged. The scan never aborts over them.
#[test]
fn legacy_values_degrade_gracefully_on_read() {
    let conn = Connection::open_in_memory().unwrap();
    conn.execute("CREATE TABLE _zstd_docs (id INTEGER PRIMARY KEY, content TEXT)", [])
        .unwrap();
    // A legacy blob row without marker framing, and one with foreign bytes.
    conn.execute(
        "INSERT INTO _zstd_docs (content) VALUES (CAST('legacy text' AS BLOB))",
        [],
    )
    .unwrap();
    conn.execute("INSERT INTO _zstd_docs (content) VALUES (X'FFFE99')", [])
        .unwrap();
    conn.execute("INSERT INTO _zstd_docs (content) VALUES (X'')", [])
        .unwrap();

    let (_, vtab) = ZstdVTab::connect(
        "_zstd_docs".to_string(),
        "content",
        "id:INTEGER:PK|content:TEXT",
        false,
    )
    .unwrap();
    let mut tracker = RowIdentityTracker::new();
    let mut cursor = ZstdCursor::new();
    let rows = run_scan(&conn, &vtab, &mut tracker, &mut cursor, 0, &[]);
    assert_eq!(rows.len(), 3);
    assert_eq!(text_of(&rows[0].1[1]), "legacy text");
    assert!(matches!(&rows[1].1[1], RowValue::Blob(b) if b == &vec![0xFF, 0xFE, 0x99]));
    // An empty stored byte sequence is empty text: decoding fails on empty
    // input and empty bytes are valid UTF-8.
    assert_eq!(text_of(&rows[2].1[1]), "");
}

/// Uncompressed columns pass through the write path unchanged.
#[test]
fn uncompressed_columns_are_stored_as_is() {
    let conn = Connection::open_in_memory().unwrap();
    conn.execute(
        "CREATE TABLE _zstd_docs (id INTEGER PRIMARY KEY, title TEXT, content TEXT)",
        [],
    )
    .unwrap();
    let (_, vtab) = ZstdVTab::connect(
        "_zstd_docs".to_string(),
        "content",
        "id:INTEGER:PK|title:TEXT|content:TEXT",
        false,
    )
    .unwrap();
    let m = vtab.plan_insert(
        &vec![
            RowValue::Null,
            RowValue::Text("Test".to_string()),
            RowValue::Text("Body".to_string()),
        ],
        ConflictMode::Abort,
    );
    run_insert(&conn, &m);
    let title: String = conn
        .query_row("SELECT title FROM _zstd_docs", [], |row| row.get(0))
        .unwrap();
    assert_eq!(title, "Test");
}

/// A row of a text-keyed table is updated through the synthetic identifier
/// cached by the scan that yielded it.
#[test]
fn update_by_synthetic_identifier_on_keyed_table() {
    let conn = Connection::open_in_memory().unwrap();
    conn.execute(
        "CREATE TABLE _zstd_kv (key TEXT PRIMARY KEY, value TEXT) WITHOUT ROWID",
        [],
    )
    .unwrap();
    let (_, vtab) = ZstdVTab::connect(
        "_zstd_kv".to_string(),
        "value",
        "key:TEXT:PK|value:TEXT",
        true,
    )
    .unwrap();

    let insert = vtab.plan_insert(
        &vec![
            RowValue::Text("test_key".to_string()),
            RowValue::Text("original value".to_string()),
        ],
        ConflictMode::Abort,
    );
    run_insert(&conn, &insert);

    let mut tracker = RowIdentityTracker::new();
    let mut cursor = ZstdCursor::new();
    let rows = run_scan(&conn, &vtab, &mut tracker, &mut cursor, 0, &[]);
    assert_eq!(rows.len(), 1);
    let id = rows[0].0;
    assert_eq!(id, 1);
    // The cache remembers which key the synthetic identifier stands for.
    assert!(tracker.lookup(id).is_some());

    let update = vtab
        .plan_update(
            &tracker,
            id,
            id,
            &vec![
                RowValue::Text("test_key".to_string()),
                RowValue::Text("updated value".to_string()),
            ],
        )
        .unwrap();
    run_mutation(&conn, &update).unwrap();

    tracker.clear();
    let rows = run_scan(&conn, &vtab, &mut tracker, &mut cursor, 0, &[]);
    assert_eq!(rows.len(), 1);
    assert_eq!(text_of(&rows[0].1[1]), "updated value");
}

/// Several compressed columns of one keyed row round-trip independently,
/// and an update through the cache rewrites them all.
#[test]
fn multiple_compressed_columns_roundtrip() {
    let conn = Connection::open_in_memory().unwrap();
    conn.execute(
        "CREATE TABLE _zstd_records (id TEXT PRIMARY KEY, field1 TEXT, field2 TEXT, field3 TEXT) WITHOUT ROWID",
        [],
    )
    .unwrap();
    let (_, vtab) = ZstdVTab::connect(
        "_zstd_records".to_string(),
        "field1|field2|field3",
        "id:TEXT:PK|field1:TEXT|field2:TEXT|field3:TEXT",
        true,
    )
    .unwrap();

    let insert = vtab.plan_insert(
        &vec![
            RowValue::Text("rec1".to_string()),
            RowValue::Text("value1".to_string()),
            RowValue::Text("value2".to_string()),
            RowValue::Text("value3".to_string()),
        ],
        ConflictMode::Abort,
    );
    run_insert(&conn, &insert);

    let mut tracker = RowIdentityTracker::new();
    let mut cursor = ZstdCursor::new();
    let rows = run_scan(&conn, &vtab, &mut tracker, &mut cursor, 0, &[]);
    assert_eq!(rows.len(), 1);
    assert_eq!(text_of(&rows[0].1[1]), "value1");
    assert_eq!(text_of(&rows[0].1[2]), "value2");
    assert_eq!(text_of(&rows[0].1[3]), "value3");

    let update = vtab
        .plan_update(
            &tracker,
            rows[0].0,
            rows[0].0,
            &vec![
                RowValue::Text("rec1".to_string()),
                RowValue::Text("value1".to_string()),
                RowValue::Text("updated2".to_string()),
                RowValue::Text("value3".to_string()),
            ],
        )
        .unwrap();
    run_mutation(&conn, &update).unwrap();

    tracker.clear();
    let rows = run_scan(&conn, &vtab, &mut tracker, &mut cursor, 0, &[]);
    assert_eq!(text_of(&rows[0].1[2]), "updated2");
}

/// A uniqueness violation on a table with implicit identity (a UNIQUE
/// constraint rather than the declared key) is suppressed under Ignore and
/// propagated otherwise.
#[test]
fn ignore_on_implicit_identity_table_with_unique_constraint() {
    let conn = Connection::open_in_memory().unwrap();
    conn.execute(
        "CREATE TABLE _zstd_obs (id INTEGER PRIMARY KEY, features TEXT UNIQUE)",
        [],
    )
    .unwrap();
    let (_, vtab) = ZstdVTab::connect(
        "_zstd_obs".to_string(),
        "",
        "id:INTEGER:PK|features:TEXT",
        false,
    )
    .unwrap();

    let insert = |id: i64, features: &str, mode: ConflictMode| -> Result<i64, WriteError> {
        let m = vtab.plan_insert(
            &vec![
                RowValue::Integer(id),
                RowValue::Text(features.to_string()),
            ],
            mode,
        );
        let outcome = run_insert(&conn, &m);
        vtab.insert_outcome(mode, outcome)
    };

    assert_eq!(insert(1, "feature1", ConflictMode::Abort), Ok(1));
    // Same id: Ignore suppresses the violation and reports the sentinel.
    assert_eq!(insert(1, "feature2", ConflictMode::Ignore), Ok(0));
    let features: String = conn
        .query_row("SELECT features FROM _zstd_obs WHERE id = 1", [], |row| {
            row.get(0)
        })
        .unwrap();
    assert_eq!(features, "feature1");
    let count: i64 = conn
        .query_row("SELECT COUNT(*) FROM _zstd_obs", [], |row| row.get(0))
        .unwrap();
    assert_eq!(count, 1);
}


/// A composite declared key always gets a synthetic identifier and a cached
/// tuple, even when its first key cell holds an integer; the delete that
/// follows resolves through the cache.
#[test]
fn composite_key_with_integer_first_cell_is_synthetic() {
    let conn = Connection::open_in_memory().unwrap();
    conn.execute(
        "CREATE TABLE _zstd_pairs (major INTEGER, minor TEXT, value TEXT, PRIMARY KEY (major, minor)) WITHOUT ROWID",
        [],
    )
    .unwrap();
    let (_, vtab) = ZstdVTab::connect(
        "_zstd_pairs".to_string(),
        "value",
        "major:INTEGER:PK|minor:TEXT:PK|value:TEXT",
        true,
    )
    .unwrap();

    for (major, minor, value) in [(7, "a", "v1"), (7, "b", "v2")] {
        let m = vtab.plan_insert(
            &vec![
                RowValue::Integer(major),
                RowValue::Text(minor.to_string()),
                RowValue::Text(value.to_string()),
            ],
            ConflictMode::Abort,
        );
        run_insert(&conn, &m);
    }

    let mut tracker = RowIdentityTracker::new();
    let mut cursor = ZstdCursor::new();
    let rows = run_scan(&conn, &vtab, &mut tracker, &mut cursor, 0, &[]);
    assert_eq!(rows.len(), 2);
    // Synthetic per-scan identifiers, not the integer key cell.
    assert_eq!(rows[0].0, 1);
    assert_eq!(rows[1].0, 2);
    // Both rows' declared-key tuples are cached.
    assert!(tracker.lookup(1).is_some());
    assert!(tracker.lookup(2).is_some());

    let delete = vtab.plan_delete(&tracker, 1).unwrap();
    run_mutation(&conn, &delete).unwrap();
    let count: i64 = conn
        .query_row("SELECT COUNT(*) FROM _zstd_pairs", [], |row| row.get(0))
        .unwrap();
    assert_eq!(count, 1);
    let left: String = conn
        .query_row("SELECT minor FROM _zstd_pairs", [], |row| row.get(0))
        .unwrap();
    assert_eq!(left, "b");
}

/// A key-changing update on a composite-keyed row addresses the row by the
/// cached OLD declared-key tuple, so the key columns themselves can change.
#[test]
fn composite_key_update_changes_key_through_cached_tuple() {
    let conn = Connection::open_in_memory().unwrap();
    conn.execute(
        "CREATE TABLE _zstd_metrics (source TEXT, metric TEXT, value TEXT, PRIMARY KEY (source, metric)) WITHOUT ROWID",
        [],
    )
    .unwrap();
    let (_, vtab) = ZstdVTab::connect(
        "_zstd_metrics".to_string(),
        "value",
        "source:TEXT:PK|metric:TEXT:PK|value:TEXT",
        true,
    )
    .unwrap();

    let insert = vtab.plan_insert(
        &vec![
            RowValue::Text("server1".to_string()),
            RowValue::Text("cpu".to_string()),
            RowValue::Text("45%".to_string()),
        ],
        ConflictMode::Abort,
    );
    run_insert(&conn, &insert);

    let mut tracker = RowIdentityTracker::new();
    let mut cursor = ZstdCursor::new();
    let rows = run_scan(&conn, &vtab, &mut tracker, &mut cursor, 0, &[]);
    assert_eq!(rows.len(), 1);
    let id = rows[0].0;

    // Rename the metric: the WHERE clause must match the old cached tuple
    // (server1, cpu), not the new key cells.
    let update = vtab
        .plan_update(
            &tracker,
            id,
            id,
            &vec![
                RowValue::Text("server1".to_string()),
                RowValue::Text("cpu_total".to_string()),
                RowValue::Text("95%".to_string()),
            ],
        )
        .unwrap();
    run_mutation(&conn, &update).unwrap();

    let count: i64 = conn
        .query_row("SELECT COUNT(*) FROM _zstd_metrics", [], |row| row.get(0))
        .unwrap();
    assert_eq!(count, 1);
    tracker.clear();
    let rows = run_scan(&conn, &vtab, &mut tracker, &mut cursor, 0, &[]);
    assert_eq!(rows.len(), 1);
    assert_eq!(text_of(&rows[0].1[1]), "cpu_total");
    assert_eq!(text_of(&rows[0].1[2]), "95%");
}
