use sqlite_zstd::schema::{
    column_name_list, declared_type_is_text, find_first_pk, parse_column_list, parse_schema,
    pk_columns, text_columns, ColumnDescriptor,
};
use sqlite_zstd::sql::build_schema_ddl;
use sqlite_zstd::text::{is_valid_table_name, split_str, str_equal, trim_str};

fn col(name: &str, ty: &str, pk: bool) -> ColumnDescriptor {
    ColumnDescriptor {
        name: name.to_owned(),
        declared_type: ty.to_owned(),
        is_primary_key: pk,
    }
}

#[test]
fn split_keeps_empty_segments() {
    let parts = split_str("a|b||c", '|');
    assert_eq!(parts, vec!["a", "b", "", "c"]);
    assert_eq!(split_str("", '|'), vec![""]);
    assert_eq!(split_str("|", '|'), vec!["", ""]);
}

#[test]
fn trim_removes_surrounding_whitespace() {
    assert_eq!(trim_str("  hello \t"), "hello");
    assert_eq!(trim_str("hello"), "hello");
    assert_eq!(trim_str("   "), "");
    assert_eq!(trim_str(""), "");
}

#[test]
fn str_equal_compares_characters() {
    assert!(str_equal("abc", "abc"));
    assert!(!str_equal("abc", "abd"));
    assert!(!str_equal("abc", "ab"));
}

#[test]
fn parse_schema_reads_columns_and_keys() {
    let cols = parse_schema("id:INTEGER:PK|title:TEXT|content:TEXT").unwrap();
    assert_eq!(cols.len(), 3);
    assert_eq!(cols[0].name, "id");
    assert_eq!(cols[0].declared_type, "INTEGER");
    assert!(cols[0].is_primary_key);
    assert_eq!(cols[1].name, "title");
    assert!(!cols[1].is_primary_key);
    assert_eq!(cols[2].name, "content");
}

#[test]
fn parse_schema_trims_tokens() {
    let cols = parse_schema(" key : TEXT : PK | value :TEXT").unwrap();
    assert_eq!(cols[0].name, "key");
    assert_eq!(cols[0].declared_type, "TEXT");
    assert!(cols[0].is_primary_key);
    assert_eq!(cols[1].name, "value");
    assert!(!cols[1].is_primary_key);
}

#[test]
fn parse_schema_rejects_malformed_definitions() {
    assert!(parse_schema("justaname").is_err());
    assert!(parse_schema("a:TEXT|b").is_err());
    assert!(parse_schema("a:TEXT:PK:extra").is_err());
}

#[test]
fn parse_column_list_handles_empty_text() {
    assert!(parse_column_list("").is_empty());
    assert_eq!(parse_column_list("content"), vec!["content"]);
    assert_eq!(parse_column_list("a| b |c"), vec!["a", "b", "c"]);
}

#[test]
fn text_types_are_recognised_case_insensitively() {
    assert!(declared_type_is_text("TEXT"));
    assert!(declared_type_is_text("text"));
    assert!(declared_type_is_text("Clob"));
    assert!(declared_type_is_text("CLOB(100)"));
    assert!(!declared_type_is_text("INTEGER"));
    assert!(!declared_type_is_text("BLOB"));
    assert!(!declared_type_is_text("VARCHAR"));
}

#[test]
fn text_and_pk_columns_are_filtered_in_order() {
    let cols = vec![
        col("id", "INTEGER", true),
        col("title", "TEXT", false),
        col("content", "text", false),
        col("size", "REAL", false),
    ];
    assert_eq!(text_columns(&cols), vec!["title", "content"]);
    assert_eq!(pk_columns(&cols), vec!["id"]);
    assert_eq!(column_name_list(&cols), vec!["id", "title", "content", "size"]);
    assert_eq!(find_first_pk(&cols), Some(0));
}

#[test]
fn schema_ddl_inlines_a_single_key() {
    let cols = vec![
        col("id", "INTEGER", true),
        col("title", "TEXT", false),
        col("content", "TEXT", false),
    ];
    assert_eq!(
        build_schema_ddl(&cols),
        "CREATE TABLE x(\"id\" INTEGER PRIMARY KEY, \"title\" TEXT, \"content\" TEXT)"
    );
}

#[test]
fn schema_ddl_declares_a_composite_key_at_table_level() {
    let cols = vec![
        col("source", "TEXT", true),
        col("metric", "TEXT", true),
        col("value", "TEXT", false),
    ];
    assert_eq!(
        build_schema_ddl(&cols),
        "CREATE TABLE x(\"source\" TEXT, \"metric\" TEXT, \"value\" TEXT, PRIMARY KEY (\"source\", \"metric\"))"
    );
}

#[test]
fn table_names_are_validated() {
    assert!(is_valid_table_name("documents"));
    assert!(is_valid_table_name("kv_store_2"));
    assert!(!is_valid_table_name("bad name"));
    assert!(!is_valid_table_name("t;DROP TABLE x"));
    assert!(!is_valid_table_name("quo\"te"));
}
