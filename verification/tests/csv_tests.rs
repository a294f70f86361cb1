use can_daq::logs::table::join_csv_row;

#[test]
fn plain_fields_pass_through() {
    let cells = vec!["a".to_string(), "b".to_string(), "c".to_string()];
    assert_eq!(join_csv_row(&cells), "a,b,c\n");
}

#[test]
fn empty_fields_stay_empty() {
    let cells = vec!["a".to_string(), "".to_string(), "b".to_string()];
    assert_eq!(join_csv_row(&cells), "a,,b\n");
}

#[test]
fn a_comma_forces_quoting() {
    let cells = vec!["a,b".to_string(), "c".to_string()];
    assert_eq!(join_csv_row(&cells), "\"a,b\",c\n");
}

#[test]
fn internal_quotes_are_doubled() {
    let cells = vec!["x\"y".to_string()];
    assert_eq!(join_csv_row(&cells), "\"x\"\"y\"\n");
}

#[test]
fn a_newline_forces_quoting() {
    let cells = vec!["two\nlines".to_string()];
    assert_eq!(join_csv_row(&cells), "\"two\nlines\"\n");
}

#[test]
fn an_empty_row_is_just_a_newline() {
    let cells: Vec<String> = vec![];
    assert_eq!(join_csv_row(&cells), "\n");
}
