//! Construction of the SQL statements issued to the underlying store.
//!
//! Every statement text the overlay hands to the host engine is pinned down
//! here, character for character, by spec functions over character sequences.

use vstd::prelude::*;
use vstd::string::StringExecFns;

use crate::schema::{ColumnDescriptor, ColumnModel, pk_column_names, pk_columns};

verus! {

/// `parts` joined by `sep`: empty for no parts, and no trailing separator.
pub open spec fn joined(parts: Seq<Seq<char>>, sep: Seq<char>) -> Seq<char>
    decreases parts.len(),
{
    if parts.len() == 0 {
        Seq::empty()
    } else if parts.len() == 1 {
        parts[0]
    } else {
        parts[0] + sep + joined(parts.skip(1), sep)
    }
}

/// Appending one more part extends the joined text by one separator and that
/// part (by the part alone when nothing was joined yet).
pub proof fn lemma_joined_push(parts: Seq<Seq<char>>, sep: Seq<char>, last: Seq<char>)
    ensures
        joined(parts.push(last), sep) == if parts.len() == 0 {
            last
        } else {
            joined(parts, sep) + sep + last
        },
    decreases parts.len(),
{
    if parts.len() == 0 {
        assert(parts.push(last)[0] == last);
    } else {
        assert(parts.push(last)[0] == parts[0]);
        assert(parts.push(last).skip(1) =~= parts.skip(1).push(last));
        lemma_joined_push(parts.skip(1), sep, last);
        if parts.len() == 1 {
            assert(joined(parts.push(last), sep) == parts[0] + sep + last);
        } else {
            assert(parts[0] + sep + (joined(parts.skip(1), sep) + sep + last) =~= (parts[0] + sep
                + joined(parts.skip(1), sep)) + sep + last);
        }
    }
}

/// Join `parts` with `sep`, exactly as `joined` lays them out.
pub fn join_strings(parts: &Vec<String>, sep: &str) -> (r: String)
    ensures
        r@ == joined(parts.deep_view(), sep@),
{
    let mut acc = String::new();
    let mut i: usize = 0;
    while i < parts.len()
        invariant
            0 <= i <= parts.len(),
            acc@ == joined(parts.deep_view().take(i as int), sep@),
        decreases parts.len() - i,
    {
        if i > 0 {
            acc.append(sep);
        }
        acc.append(parts[i].as_str());
        proof {
            lemma_joined_push(parts.deep_view().take(i as int), sep@, parts.deep_view()[i as int]);
            assert(parts.deep_view().take(i as int).push(parts.deep_view()[i as int]) =~= parts
                .deep_view().take(i as int + 1));
        }
        i = i + 1;
    }
    proof {
        assert(parts.deep_view().take(parts.len() as int) =~= parts.deep_view());
    }
    acc
}

/// An identifier as it stands in statement text: wrapped in double quotes.
pub open spec fn quoted(name: Seq<char>) -> Seq<char> {
    "\""@ + name + "\""@
}

/// Quote an identifier for use in statement text.
pub fn quote_ident(name: &str) -> (r: String)
    ensures
        r@ == quoted(name@),
{
    let mut acc = String::from_str("\"");
    acc.append(name);
    acc.append("\"");
    acc
}

/// Every name quoted, in order.
fn map_quote(names: &Vec<String>) -> (r: Vec<String>)
    ensures
        r.deep_view() == names.deep_view().map_values(|n: Seq<char>| quoted(n)),
{
    let ghost all = names.deep_view();
    let mut out: Vec<String> = Vec::new();
    let mut i: usize = 0;
    proof {
        assert(out.deep_view() =~= all.take(0).map_values(|n: Seq<char>| quoted(n)));
    }
    while i < names.len()
        invariant
            all == names.deep_view(),
            0 <= i <= names.len(),
            out.deep_view() == all.take(i as int).map_values(|n: Seq<char>| quoted(n)),
        decreases names.len() - i,
    {
        let ghost old_out = out.deep_view();
        out.push(quote_ident(names[i].as_str()));
        proof {
            assert(out.deep_view() =~= old_out.push(quoted(all[i as int])));
            assert(all.take(i as int + 1).map_values(|n: Seq<char>| quoted(n)) =~= all.take(
                i as int,
            ).map_values(|n: Seq<char>| quoted(n)).push(quoted(all[i as int])));
        }
        i = i + 1;
    }
    proof {
        assert(all.take(names.len() as int) =~= all);
    }
    out
}

/// One `"name" = ?` comparison as it stands in a WHERE or SET clause.
pub open spec fn eq_binding(name: Seq<char>) -> Seq<char> {
    quoted(name) + " = ?"@
}

/// Every name as a `"name" = ?` comparison, in order.
fn map_eq_binding(names: &Vec<String>) -> (r: Vec<String>)
    ensures
        r.deep_view() == names.deep_view().map_values(|n: Seq<char>| eq_binding(n)),
{
    let ghost all = names.deep_view();
    let mut out: Vec<String> = Vec::new();
    let mut i: usize = 0;
    proof {
        assert(out.deep_view() =~= all.take(0).map_values(|n: Seq<char>| eq_binding(n)));
    }
    while i < names.len()
        invariant
            all == names.deep_view(),
            0 <= i <= names.len(),
            out.deep_view() == all.take(i as int).map_values(|n: Seq<char>| eq_binding(n)),
        decreases names.len() - i,
    {
        let ghost old_out = out.deep_view();
        let mut part = quote_ident(names[i].as_str());
        part.append(" = ?");
        out.push(part);
        proof {
            assert(out.deep_view() =~= old_out.push(eq_binding(all[i as int])));
            assert(all.take(i as int + 1).map_values(|n: Seq<char>| eq_binding(n)) =~= all.take(
                i as int,
            ).map_values(|n: Seq<char>| eq_binding(n)).push(eq_binding(all[i as int])));
        }
        i = i + 1;
    }
    proof {
        assert(all.take(names.len() as int) =~= all);
    }
    out
}

/// `n` value placeholders.
pub open spec fn placeholders(n: int) -> Seq<Seq<char>> {
    Seq::new(n as nat, |i: int| "?"@)
}

fn placeholder_list(n: usize) -> (r: Vec<String>)
    ensures
        r.deep_view() == placeholders(n as int),
{
    let mut out: Vec<String> = Vec::new();
    let mut i: usize = 0;
    while i < n
        invariant
            0 <= i <= n,
            out.deep_view() == placeholders(i as int),
        decreases n - i,
    {
        let ghost old_out = out.deep_view();
        out.push(String::from_str("?"));
        proof {
            assert(out.deep_view() =~= old_out.push("?"@));
            assert(out.deep_view() =~= placeholders(i as int + 1));
        }
        i = i + 1;
    }
    out
}

/// The `"name" = ?` comparisons of the columns whose equality bit is set in
/// the plan token, from column `i` on, in column order. Only the first
/// sixteen columns can carry an equality bit: the token's low half.
pub open spec fn eq_where_parts(names: Seq<Seq<char>>, mask: u32, i: int) -> Seq<Seq<char>>
    decreases names.len() - i,
{
    if i < 0 || i >= names.len() || i >= 16 {
        Seq::empty()
    } else {
        let rest = eq_where_parts(names, mask, i + 1);
        if mask & (1u32 << (i as u32)) != 0 {
            seq![eq_binding(names[i])] + rest
        } else {
            rest
        }
    }
}

/// The equality comparisons from column `i` on are exactly the equality bits
/// at or above `i`: the whole clause consumes one argument per set bit, in
/// ascending column order.
pub proof fn lemma_eq_where_prefix_count(names: Seq<Seq<char>>, mask: u32, i: int)
    requires
        0 <= i <= 16,
        i <= names.len(),
    ensures
        eq_where_parts(names, mask, 0).len() == crate::plan::eq_bits_below(mask, i)
            + eq_where_parts(names, mask, i).len(),
    decreases i,
{
    if i > 0 {
        lemma_eq_where_prefix_count(names, mask, i - 1);
    }
}

/// The arguments the scan statement consumes line up with the slots the
/// planner assigns: the equality comparison for column `c` stands at 0-based
/// position `eq_bits_below(mask, c)` of the WHERE clause — one below the
/// 1-based argument slot the planner gives the equality predicate on `c`.
pub proof fn lemma_eq_argument_alignment(names: Seq<Seq<char>>, mask: u32, c: int)
    requires
        0 <= c < names.len(),
        c < 16,
        mask & (1u32 << (c as u32)) != 0,
    ensures
        ({
            let parts = eq_where_parts(names, mask, 0);
            let pos = crate::plan::eq_bits_below(mask, c);
            0 <= pos < parts.len() && parts[pos] == eq_binding(names[c])
        }),
{
    lemma_eq_argument_alignment_from(names, mask, 0, c);
}

proof fn lemma_eq_argument_alignment_from(names: Seq<Seq<char>>, mask: u32, i: int, c: int)
    requires
        0 <= i <= c < names.len(),
        c < 16,
        mask & (1u32 << (c as u32)) != 0,
    ensures
        ({
            let parts = eq_where_parts(names, mask, i);
            let pos = crate::plan::eq_bits_below(mask, c) - crate::plan::eq_bits_below(mask, i);
            0 <= pos < parts.len() && parts[pos] == eq_binding(names[c])
        }),
    decreases c - i,
{
    if i == c {
        assert(eq_where_parts(names, mask, c)[0] == eq_binding(names[c]));
    } else {
        lemma_eq_argument_alignment_from(names, mask, i + 1, c);
        crate::plan::lemma_eq_bits_below_bound(mask, i);
    }
}

/// The select statement a scan opens: the column list (prefixed by the
/// identity column unless the table does without it), the underlying table,
/// and one equality comparison per column marked in the plan token, joined
/// by AND.
pub open spec fn scan_select_sql(
    table: Seq<char>,
    names: Seq<Seq<char>>,
    without_rowid: bool,
    mask: u32,
) -> Seq<char> {
    let quoted_names = names.map_values(|n: Seq<char>| quoted(n));
    let col_list = if without_rowid {
        joined(quoted_names, ", "@)
    } else {
        joined(seq!["rowid"@] + quoted_names, ", "@)
    };
    let parts = eq_where_parts(names, mask, 0);
    let base = "SELECT "@ + col_list + " FROM "@ + quoted(table);
    if parts.len() == 0 {
        base
    } else {
        base + " WHERE "@ + joined(parts, " AND "@)
    }
}

/// Build the select statement for one scan, with the plan token deciding the
/// WHERE clause. Also reports how many bound arguments the statement
/// consumes: one per equality comparison, in column order.
pub fn build_scan_select(table: &str, names: &Vec<String>, without_rowid: bool, mask: u32) -> (r: (
    String,
    usize,
))
    ensures
        r.0@ == scan_select_sql(table@, names.deep_view(), without_rowid, mask),
        r.1 == eq_where_parts(names.deep_view(), mask, 0).len(),
{
    let ghost all = names.deep_view();
    let quoted_names = map_quote(names);
    let col_list = if without_rowid {
        join_strings(&quoted_names, ", ")
    } else {
        let mut with_rowid = quoted_names;
        with_rowid.insert(0, String::from_str("rowid"));
        proof {
            assert(with_rowid.deep_view() =~= seq!["rowid"@] + all.map_values(
                |n: Seq<char>| quoted(n),
            ));
        }
        join_strings(&with_rowid, ", ")
    };
    let mut parts: Vec<String> = Vec::new();
    let mut i: usize = if names.len() < 16 {
        names.len()
    } else {
        16
    };
    proof {
        assert(parts.deep_view() =~= eq_where_parts(all, mask, i as int));
    }
    while i > 0
        invariant
            all == names.deep_view(),
            0 <= i <= names.len(),
            i <= 16,
            parts.deep_view() == eq_where_parts(all, mask, i as int),
        decreases i,
    {
        i = i - 1;
        if mask & (1u32 << (i as u32)) != 0 {
            let ghost old_parts = parts.deep_view();
            let mut part = quote_ident(names[i].as_str());
            part.append(" = ?");
            parts.insert(0, part);
            proof {
                assert(parts.deep_view() =~= seq![eq_binding(all[i as int])] + old_parts);
            }
        }
    }
    let n_args = parts.len();
    let mut sql = String::from_str("SELECT ");
    sql.append(col_list.as_str());
    sql.append(" FROM ");
    let qt = quote_ident(table);
    sql.append(qt.as_str());
    if parts.len() > 0 {
        sql.append(" WHERE ");
        let wc = join_strings(&parts, " AND ");
        sql.append(wc.as_str());
    }
    (sql, n_args)
}

/// The insert statement the write path issues: plain, or replace-capable up
/// front when the directive asks for native replace semantics.
pub open spec fn insert_sql(table: Seq<char>, names: Seq<Seq<char>>, replace: bool) -> Seq<char> {
    let verb = if replace {
        "INSERT OR REPLACE INTO "@
    } else {
        "INSERT INTO "@
    };
    verb + quoted(table) + " ("@ + joined(names.map_values(|n: Seq<char>| quoted(n)), ", "@)
        + ") VALUES ("@ + joined(placeholders(names.len() as int), ", "@) + ")"@
}

/// Build the insert statement over all columns of the table.
pub fn build_insert(table: &str, names: &Vec<String>, replace: bool) -> (r: String)
    ensures
        r@ == insert_sql(table@, names.deep_view(), replace),
{
    let mut sql = if replace {
        String::from_str("INSERT OR REPLACE INTO ")
    } else {
        String::from_str("INSERT INTO ")
    };
    let qt = quote_ident(table);
    sql.append(qt.as_str());
    sql.append(" (");
    let quoted_names = map_quote(names);
    let cols = join_strings(&quoted_names, ", ");
    sql.append(cols.as_str());
    sql.append(") VALUES (");
    let ph = placeholder_list(names.len());
    let vals = join_strings(&ph, ", ");
    sql.append(vals.as_str());
    sql.append(")");
    sql
}

/// The update statement for a table with implicit row identity: every column
/// set (plus the identity itself when the caller changes it), the target row
/// picked by identity.
pub open spec fn update_by_rowid_sql(
    table: Seq<char>,
    names: Seq<Seq<char>>,
    rowid_change: bool,
) -> Seq<char> {
    let set_parts = names.map_values(|n: Seq<char>| eq_binding(n));
    let all_parts = if rowid_change {
        set_parts.push("rowid = ?"@)
    } else {
        set_parts
    };
    "UPDATE "@ + quoted(table) + " SET "@ + joined(all_parts, ", "@) + " WHERE rowid = ?"@
}

/// Build the update statement addressed by implicit row identity.
pub fn build_update_by_rowid(table: &str, names: &Vec<String>, rowid_change: bool) -> (r: String)
    ensures
        r@ == update_by_rowid_sql(table@, names.deep_view(), rowid_change),
{
    let mut set_parts = map_eq_binding(names);
    let ghost base_parts = set_parts.deep_view();
    if rowid_change {
        set_parts.push(String::from_str("rowid = ?"));
        proof {
            assert(set_parts.deep_view() =~= base_parts.push("rowid = ?"@));
        }
    }
    let mut sql = String::from_str("UPDATE ");
    let qt = quote_ident(table);
    sql.append(qt.as_str());
    sql.append(" SET ");
    let sets = join_strings(&set_parts, ", ");
    sql.append(sets.as_str());
    sql.append(" WHERE rowid = ?");
    sql
}

/// The update statement for a table whose identity is its declared key:
/// every column set, the target row picked by an exact match over the given
/// key columns.
pub open spec fn update_by_keys_sql(
    table: Seq<char>,
    names: Seq<Seq<char>>,
    key_names: Seq<Seq<char>>,
) -> Seq<char> {
    let set_parts = names.map_values(|n: Seq<char>| eq_binding(n));
    let key_parts = key_names.map_values(|n: Seq<char>| eq_binding(n));
    "UPDATE "@ + quoted(table) + " SET "@ + joined(set_parts, ", "@) + " WHERE "@ + joined(
        key_parts,
        " AND "@,
    )
}

/// Build the update statement addressed by declared-key columns.
pub fn build_update_by_keys(table: &str, names: &Vec<String>, key_names: &Vec<String>) -> (r:
    String)
    ensures
        r@ == update_by_keys_sql(table@, names.deep_view(), key_names.deep_view()),
{
    let set_parts = map_eq_binding(names);
    let key_parts = map_eq_binding(key_names);
    let mut sql = String::from_str("UPDATE ");
    let qt = quote_ident(table);
    sql.append(qt.as_str());
    sql.append(" SET ");
    let sets = join_strings(&set_parts, ", ");
    sql.append(sets.as_str());
    sql.append(" WHERE ");
    let keys = join_strings(&key_parts, " AND ");
    sql.append(keys.as_str());
    sql
}

/// The delete statement for a table with implicit row identity.
pub open spec fn delete_by_rowid_sql(table: Seq<char>) -> Seq<char> {
    "DELETE FROM "@ + quoted(table) + " WHERE rowid = ?"@
}

/// Build the delete statement addressed by implicit row identity.
pub fn build_delete_by_rowid(table: &str) -> (r: String)
    ensures
        r@ == delete_by_rowid_sql(table@),
{
    let mut sql = String::from_str("DELETE FROM ");
    let qt = quote_ident(table);
    sql.append(qt.as_str());
    sql.append(" WHERE rowid = ?");
    sql
}

/// The delete statement for a table whose identity is its declared key.
pub open spec fn delete_by_keys_sql(table: Seq<char>, key_names: Seq<Seq<char>>) -> Seq<char> {
    let key_parts = key_names.map_values(|n: Seq<char>| eq_binding(n));
    "DELETE FROM "@ + quoted(table) + " WHERE "@ + joined(key_parts, " AND "@)
}

/// Build the delete statement addressed by declared-key columns.
pub fn build_delete_by_keys(table: &str, key_names: &Vec<String>) -> (r: String)
    ensures
        r@ == delete_by_keys_sql(table@, key_names.deep_view()),
{
    let key_parts = map_eq_binding(key_names);
    let mut sql = String::from_str("DELETE FROM ");
    let qt = quote_ident(table);
    sql.append(qt.as_str());
    sql.append(" WHERE ");
    let keys = join_strings(&key_parts, " AND ");
    sql.append(keys.as_str());
    sql
}

/// One column definition in the declared schema: the quoted name and its
/// type, with `PRIMARY KEY` inline when this column is the single declared
/// key.
pub open spec fn column_def_sql(c: ColumnModel, single_pk: bool) -> Seq<char> {
    if single_pk && c.is_primary_key {
        quoted(c.name) + " "@ + c.declared_type + " PRIMARY KEY"@
    } else {
        quoted(c.name) + " "@ + c.declared_type
    }
}

/// The declared schema of the overlaid table: every column definition, a
/// single declared key inline, a composite one as a table-level constraint.
pub open spec fn schema_ddl(cols: Seq<ColumnModel>) -> Seq<char> {
    let pk = pk_column_names(cols);
    let defs = cols.map_values(|c: ColumnModel| column_def_sql(c, pk.len() == 1));
    if pk.len() > 1 {
        "CREATE TABLE x("@ + joined(defs, ", "@) + ", PRIMARY KEY ("@ + joined(
            pk.map_values(|n: Seq<char>| quoted(n)),
            ", "@,
        ) + "))"@
    } else {
        "CREATE TABLE x("@ + joined(defs, ", "@) + ")"@
    }
}

/// Build the schema declaration the host uses to present the overlaid table.
pub fn build_schema_ddl(cols: &Vec<ColumnDescriptor>) -> (r: String)
    ensures
        r@ == schema_ddl(cols.deep_view()),
{
    let ghost all = cols.deep_view();
    let pk = pk_columns(cols);
    let single_pk = pk.len() == 1;
    let mut defs: Vec<String> = Vec::new();
    let mut i: usize = 0;
    proof {
        assert(defs.deep_view() =~= all.take(0).map_values(
            |c: ColumnModel| column_def_sql(c, pk_column_names(all).len() == 1),
        ));
    }
    while i < cols.len()
        invariant
            all == cols.deep_view(),
            single_pk == (pk_column_names(all).len() == 1),
            0 <= i <= cols.len(),
            defs.deep_view() == all.take(i as int).map_values(
                |c: ColumnModel| column_def_sql(c, pk_column_names(all).len() == 1),
            ),
        decreases cols.len() - i,
    {
        let ghost old_defs = defs.deep_view();
        let mut def = quote_ident(cols[i].name.as_str());
        def.append(" ");
        def.append(cols[i].declared_type.as_str());
        if single_pk && cols[i].is_primary_key {
            def.append(" PRIMARY KEY");
        }
        proof {
            assert(def@ =~= column_def_sql(all[i as int], pk_column_names(all).len() == 1));
        }
        defs.push(def);
        proof {
            assert(defs.deep_view() =~= old_defs.push(
                column_def_sql(all[i as int], pk_column_names(all).len() == 1),
            ));
            assert(all.take(i as int + 1).map_values(
                |c: ColumnModel| column_def_sql(c, pk_column_names(all).len() == 1),
            ) =~= all.take(i as int).map_values(
                |c: ColumnModel| column_def_sql(c, pk_column_names(all).len() == 1),
            ).push(column_def_sql(all[i as int], pk_column_names(all).len() == 1)));
        }
        i = i + 1;
    }
    proof {
        assert(all.take(cols.len() as int) =~= all);
    }
    let mut sql = String::from_str("CREATE TABLE x(");
    let body = join_strings(&defs, ", ");
    sql.append(body.as_str());
    if pk.len() > 1 {
        sql.append(", PRIMARY KEY (");
        let quoted_pk = map_quote(&pk);
        let pk_list = join_strings(&quoted_pk, ", ");
        sql.append(pk_list.as_str());
        sql.append("))");
    } else {
        sql.append(")");
    }
    sql
}

} // verus!
