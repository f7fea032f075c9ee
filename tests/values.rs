use csvsource::target::sql::{is_boolean, is_number, TargetSql};

fn target(typed: bool) -> TargetSql {
    TargetSql {
        table: String::from("t"),
        columns: Vec::new(),
        chunk: 0,
        chunk_insert: 0,
        prefix: String::new(),
        suffix: String::new(),
        with_transaction: false,
        typed,
    }
}

fn record(fields: &[&str]) -> Vec<String> {
    fields.iter().map(|f| f.to_string()).collect()
}

#[test]
fn numbers_are_recognised() {
    for text in ["1", "3.14", "-2", "+7", "1e10", "2.5E-3", ".5", "5.", "inf", "-Infinity", "NaN"] {
        assert!(is_number(text), "{}", text);
    }
}

#[test]
fn non_numbers_are_refused() {
    for text in ["", "abc", "1e", ".", "1.2.3", " 1", "1 ", "e5", "+", "--1", "0x10", "1,5"] {
        assert!(!is_number(text), "{}", text);
    }
}

#[test]
fn booleans_are_recognised_in_any_case() {
    assert!(is_boolean(String::from("true")));
    assert!(is_boolean(String::from("FALSE")));
    assert!(is_boolean(String::from("True")));
    assert!(!is_boolean(String::from("yes")));
    assert!(!is_boolean(String::from("truee")));
    assert!(!is_boolean(String::new()));
}

#[test]
fn text_is_quoted_with_quotes_doubled() {
    assert_eq!(target(true).get_value("O'Brien"), "'O''Brien'");
    assert_eq!(target(true).get_value("it''s"), "'it''''s'");
    assert_eq!(target(true).get_value("plain"), "'plain'");
}

#[test]
fn empty_field_is_null_when_typed() {
    assert_eq!(target(true).get_value(""), "NULL");
    assert_eq!(target(true).get_values(&record(&["", "x"])), "(NULL, 'x')");
}

#[test]
fn empty_field_is_empty_string_when_untyped() {
    assert_eq!(target(false).get_values(&record(&["", "x"])), "('', 'x')");
}

#[test]
fn numbers_stay_verbatim_when_typed() {
    assert_eq!(target(true).get_value("3.14"), "3.14");
    assert_eq!(target(true).get_value("-1e3"), "-1e3");
    assert_eq!(target(true).get_value("007"), "007");
}

#[test]
fn booleans_stay_verbatim_when_typed() {
    assert_eq!(target(true).get_value("TRUE"), "TRUE");
    assert_eq!(target(true).get_value("false"), "false");
}

#[test]
fn untyped_values_are_all_quoted() {
    assert_eq!(
        target(false).get_values(&record(&["1", "true", "a'b"])),
        "('1', 'true', 'a''b')"
    );
}

#[test]
fn typed_values_mix_literals() {
    assert_eq!(
        target(true).get_values(&record(&["1", "true", "a'b", ""])),
        "(1, true, 'a''b', NULL)"
    );
}

#[test]
fn empty_record_gives_empty_parentheses() {
    assert_eq!(target(true).get_values(&Vec::new()), "()");
}
