use csvsource::arguments::{
    arguments_from_console, get_file_name_without_extension, parse_count, parse_flag, ArgumentError,
    CommandLine,
};

fn line(source: &str) -> CommandLine {
    CommandLine {
        source: String::from(source),
        target: None,
        target_type: None,
        delimiter: None,
        headers: None,
        table: None,
        columns: None,
        chunk: None,
        chunk_insert: None,
        prefix: None,
        suffix: None,
        with_transaction: None,
        typed: None,
    }
}

fn some(s: &str) -> Option<String> {
    Some(String::from(s))
}

#[test]
fn file_stem_drops_directories_and_extension() {
    assert_eq!(get_file_name_without_extension(&String::from("data/people.csv")), "people");
    assert_eq!(get_file_name_without_extension(&String::from("people.csv")), "people");
    assert_eq!(get_file_name_without_extension(&String::from("a.b.csv")), "a.b");
    assert_eq!(get_file_name_without_extension(&String::from("people")), "people");
    assert_eq!(get_file_name_without_extension(&String::from("data/users")), "users");
    assert_eq!(get_file_name_without_extension(&String::from("./data/file")), "file");
    assert_eq!(get_file_name_without_extension(&String::from("/a.b/c.d/e.csv")), "e");
}

#[test]
fn defaults_fill_what_is_left_out() {
    let a = arguments_from_console(&line("data/people.csv")).unwrap();
    assert_eq!(a.source, "data/people.csv");
    assert_eq!(a.target, "people.sql");
    assert_eq!(a.target_type, "sql");
    assert_eq!(a.delimiter, b',');
    assert!(a.has_headers);
    assert_eq!(a.table, "people");
    assert!(a.columns.is_empty());
    assert_eq!(a.chunk, 0);
    assert_eq!(a.chunk_insert, 0);
    assert_eq!(a.prefix, "");
    assert_eq!(a.suffix, "");
    assert!(!a.with_transaction);
    assert!(!a.typed);
}

#[test]
fn default_table_is_the_file_stem() {
    let a = arguments_from_console(&line("data/users")).unwrap();
    assert_eq!(a.table, "users");
    assert_eq!(a.target, "users.sql");
    let b = arguments_from_console(&line("./data/file")).unwrap();
    assert_eq!(b.table, "file");
}

#[test]
fn given_values_are_kept() {
    let mut l = line("p.csv");
    l.target = some("out.sql");
    l.table = some("people");
    l.delimiter = some("tab");
    l.chunk_insert = some("+10");
    l.typed = some("true");
    l.prefix = some("pre.sql");
    let a = arguments_from_console(&l).unwrap();
    assert_eq!(a.target, "out.sql");
    assert_eq!(a.table, "people");
    assert_eq!(a.delimiter, b'\t');
    assert_eq!(a.chunk_insert, 10);
    assert!(a.typed);
    assert_eq!(a.prefix, "pre.sql");
}

#[test]
fn chunk_forces_transactions() {
    let mut l = line("p.csv");
    l.chunk = some("3");
    l.with_transaction = some("false");
    let a = arguments_from_console(&l).unwrap();
    assert_eq!(a.chunk, 3);
    assert!(a.with_transaction);
}

#[test]
fn semicolon_delimiter_is_read() {
    let mut l = line("p.csv");
    l.delimiter = some("semicolon");
    assert_eq!(arguments_from_console(&l).unwrap().delimiter, b';');
}

#[test]
fn unknown_delimiter_is_refused() {
    let mut l = line("p.csv");
    l.delimiter = some("pipe");
    assert_eq!(arguments_from_console(&l).err(), Some(ArgumentError::InvalidDelimiter));
}

#[test]
fn bad_flag_is_refused() {
    let mut l = line("p.csv");
    l.typed = some("yes");
    assert_eq!(arguments_from_console(&l).err(), Some(ArgumentError::InvalidFlag));
}

#[test]
fn bad_count_is_refused() {
    let mut l = line("p.csv");
    l.chunk = some("many");
    assert_eq!(arguments_from_console(&l).err(), Some(ArgumentError::InvalidCount));
}

#[test]
fn headers_off_needs_columns() {
    let mut l = line("p.csv");
    l.headers = some("false");
    assert_eq!(arguments_from_console(&l).err(), Some(ArgumentError::MissingColumns));
    l.columns = Some(vec![String::from("a")]);
    let a = arguments_from_console(&l).unwrap();
    assert!(!a.has_headers);
    assert_eq!(a.columns, vec![String::from("a")]);
}

#[test]
fn counts_parse_like_usize() {
    assert_eq!(parse_count("0"), Some(0));
    assert_eq!(parse_count("42"), Some(42));
    assert_eq!(parse_count("+5"), Some(5));
    assert_eq!(parse_count(""), None);
    assert_eq!(parse_count("+"), None);
    assert_eq!(parse_count("-1"), None);
    assert_eq!(parse_count("1a"), None);
    assert_eq!(parse_count(&usize::MAX.to_string()), Some(usize::MAX));
    assert_eq!(parse_count("99999999999999999999999999"), None);
}

#[test]
fn flags_parse_like_bool() {
    assert_eq!(parse_flag("true"), Some(true));
    assert_eq!(parse_flag("false"), Some(false));
    assert_eq!(parse_flag("True"), None);
    assert_eq!(parse_flag(""), None);
}
