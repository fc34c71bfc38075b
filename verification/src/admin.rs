//! Statement and configuration texts of the administrative layer: attaching
//! the overlay to a table, detaching it, and the bookkeeping table that
//! records which columns are compressed.

use vstd::prelude::*;
use vstd::string::StringExecFns;

use crate::schema::{ColumnDescriptor, ColumnModel, parsed_column_def, parsed_column_defs,
    parsed_schema};
use crate::sql::{joined, join_strings, quote_ident, quoted};
use crate::text::{lemma_split_concat, lemma_split_joined, lemma_split_no_sep, split_chars,
    str_equal, trim_str, trimmed};
use vstd::string::StrSliceExecFns;

verus! {

/// The name of the underlying table an overlaid table is renamed to: the
/// overlay prefix followed by the original name.
pub open spec fn underlying_name_of(table: Seq<char>) -> Seq<char> {
    "_zstd_"@ + table
}

/// The underlying-table name for `table`.
pub fn underlying_table_name(table: &str) -> (r: String)
    ensures
        r@ == underlying_name_of(table@),
{
    let mut acc = String::from_str("_zstd_");
    acc.append(table);
    acc
}

/// One column definition as it travels in the schema text: `name:TYPE`, with
/// `:PK` appended for a declared-key column.
pub open spec fn column_def_token(c: ColumnModel) -> Seq<char> {
    let base = c.name + ":"@ + c.declared_type;
    if c.is_primary_key {
        base + ":PK"@
    } else {
        base
    }
}

/// The schema text handed to the overlay module: the column definitions
/// joined by `|`.
pub open spec fn schema_text_of(cols: Seq<ColumnModel>) -> Seq<char> {
    joined(cols.map_values(|c: ColumnModel| column_def_token(c)), "|"@)
}

/// Build the schema text for `cols`.
pub fn schema_text(cols: &Vec<ColumnDescriptor>) -> (r: String)
    ensures
        r@ == schema_text_of(cols.deep_view()),
{
    let ghost all = cols.deep_view();
    let mut tokens: Vec<String> = Vec::new();
    let mut i: usize = 0;
    proof {
        assert(tokens.deep_view() =~= all.take(0).map_values(|c: ColumnModel| column_def_token(c)));
    }
    while i < cols.len()
        invariant
            all == cols.deep_view(),
            0 <= i <= cols.len(),
            tokens.deep_view() == all.take(i as int).map_values(
                |c: ColumnModel| column_def_token(c),
            ),
        decreases cols.len() - i,
    {
        let ghost old_tokens = tokens.deep_view();
        proof {
            assert(all[i as int] == cols@[i as int]@);
        }
        let mut token = cols[i].name.clone();
        token.append(":");
        token.append(cols[i].declared_type.as_str());
        if cols[i].is_primary_key {
            token.append(":PK");
        }
        proof {
            assert(token@ =~= column_def_token(all[i as int]));
        }
        tokens.push(token);
        proof {
            assert(tokens.deep_view() =~= old_tokens.push(column_def_token(all[i as int])));
            assert(all.take(i as int + 1).map_values(|c: ColumnModel| column_def_token(c))
                =~= all.take(i as int).map_values(|c: ColumnModel| column_def_token(c)).push(
                column_def_token(all[i as int]),
            ));
        }
        i = i + 1;
    }
    proof {
        assert(all.take(cols.len() as int) =~= all);
    }
    join_strings(&tokens, "|")
}

/// A name or type that travels cleanly in the schema text: free of the two
/// separators and of surrounding whitespace, so the text neither splits
/// inside it nor trims it down.
pub open spec fn plain_token(s: Seq<char>) -> bool {
    &&& forall|i: int| 0 <= i < s.len() ==> s[i] != '|' && s[i] != ':'
    &&& trimmed(s) == s
}

/// Whether a name or type travels cleanly in the schema text; the attach
/// command tests every column with this before building the text, so that
/// what it writes is exactly what the overlay module will read back.
pub fn is_plain_token(s: &str) -> (r: bool)
    ensures
        r == plain_token(s@),
{
    let n = s.unicode_len();
    let mut i: usize = 0;
    while i < n
        invariant
            n == s@.len(),
            0 <= i <= n,
            forall|j: int| 0 <= j < i ==> s@[j] != '|' && s@[j] != ':',
        decreases n - i,
    {
        let c = s.get_char(i);
        if c == '|' || c == ':' {
            proof {
                assert(s@[i as int] == '|' || s@[i as int] == ':');
            }
            return false;
        }
        i = i + 1;
    }
    str_equal(trim_str(s), s)
}

/// One clean column definition parses back to exactly the column it was
/// built from.
proof fn lemma_token_parses_back(c: ColumnModel)
    requires
        plain_token(c.name),
        plain_token(c.declared_type),
    ensures
        parsed_column_def(column_def_token(c)) == Some(c),
{
    reveal_strlit(":");
    reveal_strlit(":PK");
    reveal_strlit("PK");
    assert(":"@ =~= seq![':']);
    let token = column_def_token(c);
    if c.is_primary_key {
        assert(":PK"@ =~= seq![':'] + "PK"@);
        let tail = c.declared_type + seq![':'] + "PK"@;
        assert(token =~= c.name + seq![':'] + tail);
        lemma_split_concat(c.name, tail, ':');
        assert(forall|i: int| 0 <= i < "PK"@.len() ==> "PK"@[i] != ':');
        lemma_split_concat(c.declared_type, "PK"@, ':');
        lemma_split_no_sep("PK"@, ':');
        let parts = split_chars(token, ':');
        assert(parts =~~= seq![c.name, c.declared_type, "PK"@]);
        assert(trimmed("PK"@) == "PK"@);
        assert(parsed_column_def(token) == Some(c));
    } else {
        assert(token =~= c.name + seq![':'] + c.declared_type);
        lemma_split_concat(c.name, c.declared_type, ':');
        lemma_split_no_sep(c.declared_type, ':');
        let parts = split_chars(token, ':');
        assert(parts =~~= seq![c.name, c.declared_type]);
        assert(parsed_column_def(token) == Some(c));
    }
}

/// A clean column definition holds no list separator, so the schema text
/// never splits inside it.
proof fn lemma_token_no_bar(c: ColumnModel)
    requires
        plain_token(c.name),
        plain_token(c.declared_type),
    ensures
        forall|i: int|
            0 <= i < column_def_token(c).len() ==> #[trigger] column_def_token(c)[i] != '|',
{
    reveal_strlit(":");
    reveal_strlit(":PK");
    let token = column_def_token(c);
    assert forall|i: int| 0 <= i < token.len() implies token[i] != '|' by {
        if c.is_primary_key {
            assert(token == c.name + ":"@ + c.declared_type + ":PK"@);
        } else {
            assert(token == c.name + ":"@ + c.declared_type);
        }
    }
}

/// A sequence of clean column definitions parses back to exactly the
/// columns it was built from.
proof fn lemma_tokens_parse_back(cols: Seq<ColumnModel>)
    requires
        forall|j: int|
            0 <= j < cols.len() ==> plain_token(#[trigger] cols[j].name) && plain_token(
                cols[j].declared_type,
            ),
    ensures
        parsed_column_defs(cols.map_values(|c: ColumnModel| column_def_token(c))) == Some(cols),
    decreases cols.len(),
{
    let tokens = cols.map_values(|c: ColumnModel| column_def_token(c));
    if cols.len() == 0 {
        assert(tokens.len() == 0);
        assert(Some(Seq::<ColumnModel>::empty()) == Some(cols)) by {
            assert(cols =~= Seq::<ColumnModel>::empty());
        }
    } else {
        lemma_token_parses_back(cols[0]);
        lemma_tokens_parse_back(cols.skip(1));
        assert(tokens[0] == column_def_token(cols[0]));
        assert(tokens.skip(1) =~~= cols.skip(1).map_values(|c: ColumnModel| column_def_token(c)));
        assert(seq![cols[0]] + cols.skip(1) =~= cols);
    }
}

/// The schema text built for a clean column list parses back to exactly that
/// list: what the attach command writes, the overlay module reads.
pub proof fn lemma_schema_text_parses_back(cols: Seq<ColumnModel>)
    requires
        cols.len() >= 1,
        forall|j: int|
            0 <= j < cols.len() ==> plain_token(#[trigger] cols[j].name) && plain_token(
                cols[j].declared_type,
            ),
    ensures
        parsed_schema(schema_text_of(cols)) == Some(cols),
{
    reveal_strlit("|");
    assert("|"@ =~= seq!['|']);
    let tokens = cols.map_values(|c: ColumnModel| column_def_token(c));
    assert forall|j: int, i: int|
        0 <= j < tokens.len() && 0 <= i < tokens[j].len() implies #[trigger] tokens[j][i]
        != '|' by {
        lemma_token_no_bar(cols[j]);
    }
    lemma_split_joined(tokens, '|');
    lemma_tokens_parse_back(cols);
}

/// The compressed-column list as it travels to the overlay module: the names
/// joined by `|`.
pub open spec fn column_list_text_of(names: Seq<Seq<char>>) -> Seq<char> {
    joined(names, "|"@)
}

/// Build the compressed-column list text.
pub fn column_list_text(names: &Vec<String>) -> (r: String)
    ensures
        r@ == column_list_text_of(names.deep_view()),
{
    join_strings(names, "|")
}

/// The statement that renames a table.
pub open spec fn rename_table_sql_spec(from: Seq<char>, to: Seq<char>) -> Seq<char> {
    "ALTER TABLE "@ + quoted(from) + " RENAME TO "@ + quoted(to)
}

/// Build the statement that renames `from` to `to`.
pub fn rename_table_sql(from: &str, to: &str) -> (r: String)
    ensures
        r@ == rename_table_sql_spec(from@, to@),
{
    let mut sql = String::from_str("ALTER TABLE ");
    let qf = quote_ident(from);
    sql.append(qf.as_str());
    sql.append(" RENAME TO ");
    let qt = quote_ident(to);
    sql.append(qt.as_str());
    sql
}

/// The statement that declares the overlaid table to the host: the module
/// invocation carrying the underlying table, the compressed-column list and
/// the schema text.
pub open spec fn create_overlay_sql_spec(
    table: Seq<char>,
    underlying: Seq<char>,
    columns_text: Seq<char>,
    schema: Seq<char>,
) -> Seq<char> {
    "CREATE VIRTUAL TABLE "@ + quoted(table) + " USING zstd("@ + underlying + ", "@ + columns_text
        + ", "@ + schema + ")"@
}

/// Build the statement that creates the overlay table.
pub fn create_overlay_sql(table: &str, underlying: &str, columns_text: &str, schema: &str) -> (r:
    String)
    ensures
        r@ == create_overlay_sql_spec(table@, underlying@, columns_text@, schema@),
{
    let mut sql = String::from_str("CREATE VIRTUAL TABLE ");
    let qt = quote_ident(table);
    sql.append(qt.as_str());
    sql.append(" USING zstd(");
    sql.append(underlying);
    sql.append(", ");
    sql.append(columns_text);
    sql.append(", ");
    sql.append(schema);
    sql.append(")");
    sql
}

/// The statement that drops the overlay table.
pub open spec fn drop_table_sql_spec(table: Seq<char>) -> Seq<char> {
    "DROP TABLE IF EXISTS "@ + quoted(table)
}

/// Build the statement that drops a table if it exists.
pub fn drop_table_sql(table: &str) -> (r: String)
    ensures
        r@ == drop_table_sql_spec(table@),
{
    let mut sql = String::from_str("DROP TABLE IF EXISTS ");
    let qt = quote_ident(table);
    sql.append(qt.as_str());
    sql
}

/// The probe that detects implicit row identity: selecting the identity
/// column of a table that does without one fails to prepare.
pub open spec fn rowid_probe_sql_spec(table: Seq<char>) -> Seq<char> {
    "SELECT rowid FROM "@ + quoted(table) + " LIMIT 0"@
}

/// Build the implicit-identity probe for `table`.
pub fn rowid_probe_sql(table: &str) -> (r: String)
    ensures
        r@ == rowid_probe_sql_spec(table@),
{
    let mut sql = String::from_str("SELECT rowid FROM ");
    let qt = quote_ident(table);
    sql.append(qt.as_str());
    sql.append(" LIMIT 0");
    sql
}

/// The statement that rewrites one column of the underlying table back to
/// plain text when the overlay is detached from it.
pub open spec fn decompress_column_sql_spec(underlying: Seq<char>, col: Seq<char>) -> Seq<char> {
    "UPDATE "@ + quoted(underlying) + " SET "@ + quoted(col) + " = zstd_decompress_marked("@
        + quoted(col) + ")"@
}

/// Build the statement that decompresses one column in place.
pub fn decompress_column_sql(underlying: &str, col: &str) -> (r: String)
    ensures
        r@ == decompress_column_sql_spec(underlying@, col@),
{
    let mut sql = String::from_str("UPDATE ");
    let qu = quote_ident(underlying);
    sql.append(qu.as_str());
    sql.append(" SET ");
    let qc = quote_ident(col);
    sql.append(qc.as_str());
    sql.append(" = zstd_decompress_marked(");
    sql.append(qc.as_str());
    sql.append(")");
    sql
}

/// The definition of the bookkeeping table that records, per overlaid table,
/// which columns are compressed and at what level.
pub fn config_table_ddl() -> (r: String)
    ensures
        r@
            == "CREATE TABLE IF NOT EXISTS _zstd_config (table_name TEXT NOT NULL, column_name TEXT NOT NULL, compression_level INTEGER NOT NULL DEFAULT 3, PRIMARY KEY (table_name, column_name))"@,
{
    String::from_str(
        "CREATE TABLE IF NOT EXISTS _zstd_config (table_name TEXT NOT NULL, column_name TEXT NOT NULL, compression_level INTEGER NOT NULL DEFAULT 3, PRIMARY KEY (table_name, column_name))",
    )
}

/// The statement that records one compressed column in the bookkeeping table.
pub fn config_insert_sql() -> (r: String)
    ensures
        r@
            == "INSERT INTO _zstd_config (table_name, column_name, compression_level) VALUES (?, ?, ?)"@,
{
    String::from_str(
        "INSERT INTO _zstd_config (table_name, column_name, compression_level) VALUES (?, ?, ?)",
    )
}

/// The statement that lists the compressed columns of one table, in name
/// order.
pub fn config_select_sql() -> (r: String)
    ensures
        r@
            == "SELECT column_name FROM _zstd_config WHERE table_name = ? ORDER BY column_name"@,
{
    String::from_str(
        "SELECT column_name FROM _zstd_config WHERE table_name = ? ORDER BY column_name",
    )
}

/// The statement that forgets one compressed column of one table.
pub fn config_delete_column_sql() -> (r: String)
    ensures
        r@ == "DELETE FROM _zstd_config WHERE table_name = ? AND column_name = ?"@,
{
    String::from_str("DELETE FROM _zstd_config WHERE table_name = ? AND column_name = ?")
}

/// The statement that forgets every compressed column of one table.
pub fn config_delete_table_sql() -> (r: String)
    ensures
        r@ == "DELETE FROM _zstd_config WHERE table_name = ?"@,
{
    String::from_str("DELETE FROM _zstd_config WHERE table_name = ?")
}

} // verus!
