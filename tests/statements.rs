use csvsource::target::csv::TargetCsv;
use csvsource::target::sql::TargetSql;
use csvsource::target::{ConvertError, Sources, Target};
use csvsource::Arguments;

fn arguments(has_headers: bool) -> Arguments {
    Arguments {
        source: String::from("t.csv"),
        target: String::from("t.sql"),
        target_type: String::from("sql"),
        delimiter: b',',
        has_headers,
        table: String::from("t"),
        columns: Vec::new(),
        chunk: 0,
        chunk_insert: 0,
        prefix: String::new(),
        suffix: String::new(),
        with_transaction: false,
        typed: false,
    }
}

fn target(chunk: usize, chunk_insert: usize, with_transaction: bool, typed: bool) -> TargetSql {
    TargetSql {
        table: String::from("t"),
        columns: Vec::new(),
        chunk,
        chunk_insert,
        prefix: String::new(),
        suffix: String::new(),
        with_transaction,
        typed,
    }
}

fn sources(csv: &str) -> Sources {
    Sources { csv: String::from(csv), prefix: None, suffix: None }
}

fn names(items: &[&str]) -> Vec<String> {
    items.iter().map(|f| f.to_string()).collect()
}

const FIVE_ROWS: &str = "id\n1\n2\n3\n4\n5\n";

#[test]
fn end_to_end_typed_without_batching() {
    let out = target(0, 0, false, true)
        .generate_sql_file(&arguments(true), &sources("id,name\n1,O'Brien\n2,\n"))
        .unwrap();
    assert_eq!(
        out,
        "insert into t (id, name) values\n(1, 'O''Brien');\n\ninsert into t (id, name) values\n(2, NULL);"
    );
}

#[test]
fn rows_are_batched_into_inserts() {
    let out = target(0, 2, false, false).generate_sql_file(&arguments(true), &sources(FIVE_ROWS)).unwrap();
    assert_eq!(out.matches("insert into").count(), 3);
    assert_eq!(
        out,
        "insert into t (id) values\n('1'),\n('2');\n\ninsert into t (id) values\n('3'),\n('4');\n\ninsert into t (id) values\n('5');"
    );
}

#[test]
fn statements_are_chunked_into_transactions() {
    let out = target(2, 0, false, false).generate_sql_file(&arguments(true), &sources(FIVE_ROWS)).unwrap();
    assert_eq!(out.matches("begin transaction").count(), 3);
    assert_eq!(out.matches("commit;").count(), 3);
    assert_eq!(out.matches(";\n\ncommit;\n\nbegin transaction").count(), 2);
    assert_eq!(
        out,
        "begin transaction;\n\ninsert into t (id) values\n('1');\n\ninsert into t (id) values\n('2')\
;\n\ncommit;\n\nbegin transaction;\n\ninsert into t (id) values\n('3');\n\ninsert into t (id) values\n('4')\
;\n\ncommit;\n\nbegin transaction;\n\ninsert into t (id) values\n('5');\n\ncommit;"
    );
}

#[test]
fn one_transaction_without_chunk() {
    let out = target(0, 0, true, false).generate_sql_file(&arguments(true), &sources("id\n1\n2\n")).unwrap();
    assert_eq!(
        out,
        "begin transaction;\n\ninsert into t (id) values\n('1');\n\ninsert into t (id) values\n('2');\n\ncommit;"
    );
}

#[test]
fn batches_and_transactions_together() {
    let out = target(1, 2, false, true).generate_sql_file(&arguments(true), &sources("id\n1\n2\n3\n")).unwrap();
    assert_eq!(
        out,
        "begin transaction;\n\ninsert into t (id) values\n(1),\n(2)\
;\n\ncommit;\n\nbegin transaction;\n\ninsert into t (id) values\n(3);\n\ncommit;"
    );
}

#[test]
fn no_records_without_transaction() {
    let out = target(0, 0, false, false).generate_sql_file(&arguments(true), &sources("id\n")).unwrap();
    assert_eq!(out, ";");
}

#[test]
fn no_records_with_transaction() {
    let out = target(0, 0, true, false).generate_sql_file(&arguments(true), &sources("")).unwrap();
    assert_eq!(out, "begin transaction;\n\ncommit;");
}

#[test]
fn conversion_is_repeatable() {
    let t = target(2, 2, false, true);
    let args = arguments(true);
    let input = sources("a,b\n1,x\n2,y\n3,\n");
    let first = t.generate_sql_file(&args, &input).unwrap();
    let second = t.generate_sql_file(&args, &input).unwrap();
    assert_eq!(first, second);
}

#[test]
fn explicit_columns_override_headers() {
    let mut t = target(0, 0, false, true);
    t.columns = names(&["a", "b"]);
    assert_eq!(t.get_fields(&arguments(true), &names(&["x", "y"])), names(&["a", "b"]));
    let out = t.generate_sql_file(&arguments(true), &sources("x,y\n1,2\n")).unwrap();
    assert_eq!(out, "insert into t (a, b) values\n(1, 2);");
}

#[test]
fn headers_name_the_fields_without_columns() {
    let t = target(0, 0, false, true);
    assert_eq!(t.get_fields(&arguments(true), &names(&["x", "y"])), names(&["x", "y"]));
}

#[test]
fn without_headers_every_record_is_data() {
    let mut t = target(0, 0, false, true);
    t.columns = names(&["a"]);
    let out = t.generate_sql_file(&arguments(false), &sources("1\n2\n")).unwrap();
    assert_eq!(out, "insert into t (a) values\n(1);\n\ninsert into t (a) values\n(2);");
}

#[test]
fn fields_are_joined_in_parentheses() {
    let t = target(0, 0, false, false);
    assert_eq!(t.format_fields(names(&["a", "b", "c"])), "(a, b, c)");
    assert_eq!(t.format_fields(names(&["a"])), "(a)");
    assert_eq!(t.format_fields(Vec::new()), "()");
}

#[test]
fn semicolon_delimiter_splits_fields() {
    let mut args = arguments(true);
    args.delimiter = b';';
    let out = target(0, 0, false, true).generate_sql_file(&args, &sources("a;b\n1;x\n")).unwrap();
    assert_eq!(out, "insert into t (a, b) values\n(1, 'x');");
}

#[test]
fn missing_prefix_adds_nothing() {
    let t = target(0, 0, false, false);
    assert_eq!(t.append_file_content(&None).unwrap(), "");
    let out = t.generate_sql_file(&arguments(true), &sources("id\n1\n")).unwrap();
    assert_eq!(out, "insert into t (id) values\n('1');");
}

#[test]
fn prefix_and_suffix_are_rendered_with_the_table() {
    let t = target(0, 0, false, false);
    let input = Sources {
        csv: String::from("id\n1\n"),
        prefix: Some(String::from("create table {table} (id int);")),
        suffix: Some(String::from("-- end of {table}\r\n")),
    };
    let out = t.generate_sql_file(&arguments(true), &input).unwrap();
    assert_eq!(
        out,
        "create table t (id int);\n\ninsert into t (id) values\n('1');-- end of t\n\n"
    );
}

#[test]
fn bad_template_is_a_template_error() {
    let t = target(0, 0, false, false);
    let input = Sources {
        csv: String::from("id\n1\n"),
        prefix: Some(String::from("{ unclosed")),
        suffix: None,
    };
    assert!(matches!(t.generate_sql_file(&arguments(true), &input), Err(ConvertError::Template(_))));
}

fn prefixed(prefix: &str) -> Sources {
    Sources { csv: String::from("id\n1\n"), prefix: Some(String::from(prefix)), suffix: None }
}

#[test]
fn empty_comment_template_is_refused() {
    let t = target(0, 0, false, false);
    let out = t.generate_sql_file(&arguments(true), &prefixed("-- {#} {table}"));
    assert!(matches!(out, Err(ConvertError::UnsupportedTemplate)));
}

#[test]
fn block_tag_template_is_refused() {
    let t = target(0, 0, false, false);
    let out = t.generate_sql_file(&arguments(true), &prefixed("{{ if not }}x{{ endif }}"));
    assert!(matches!(out, Err(ConvertError::UnsupportedTemplate)));
}

#[test]
fn comment_and_escape_in_template_are_kept() {
    let t = target(0, 0, false, false);
    let out = t.append_file_content(&Some(String::from("{# note #}create {table} \\{x}"))).unwrap();
    assert_eq!(out, "create t {x}\n\n");
}

#[test]
fn uneven_record_is_malformed_input() {
    let t = target(0, 0, false, false);
    let out = t.generate_sql_file(&arguments(true), &sources("a,b\n1,2,3\n"));
    assert!(matches!(out, Err(ConvertError::MalformedInput(_))));
}

#[test]
fn sql_target_converts() {
    let out = target(0, 0, false, true).convert(&arguments(true), &sources("id\n1\n")).unwrap();
    assert_eq!(out, Some(String::from("insert into t (id) values\n(1);")));
}

#[test]
fn csv_target_writes_nothing() {
    let out = TargetCsv {}.convert(&arguments(true), &sources("id\n1\n")).unwrap();
    assert_eq!(out, None);
}
