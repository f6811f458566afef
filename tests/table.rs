use varion_backend::{parse_table, FeatureTable, TableError};

fn accepted(text: &str, width: usize) -> FeatureTable {
    match parse_table(text, width) {
        Ok(t) => t,
        Err(e) => panic!("rejected: {}", e.describe()),
    }
}

fn rejected(text: &str, width: usize) -> TableError {
    match parse_table(text, width) {
        Ok(_) => panic!("accepted {:?}", text),
        Err(e) => e,
    }
}

#[test]
fn single_row_of_means_is_one_row_of_five() {
    let t = accepted("92.56008643,104.46793431,96.76034648,24.68794296,37.15878695", 5);
    assert_eq!(t.row_count(), 1);
    assert_eq!(t.column_count(), 5);
    assert_eq!(t.token(0, 0), "92.56008643");
    assert_eq!(t.token(0, 4), "37.15878695");
}

#[test]
fn rows_split_at_line_breaks() {
    let t = accepted("1,2,3\n4,5,6\n7,8,9", 3);
    assert_eq!(t.row_count(), 3);
    assert_eq!(t.token(1, 0), "4");
    assert_eq!(t.token(2, 2), "9");
}

#[test]
fn carriage_returns_and_trailing_newline_are_dropped() {
    let t = accepted("1,2\r\n3,4\r\n", 2);
    assert_eq!(t.row_count(), 2);
    assert_eq!(t.token(0, 1), "2");
    assert_eq!(t.token(1, 1), "4");
}

#[test]
fn blank_lines_are_skipped() {
    let t = accepted("\n1,2\n\n\r\n3,4\n\n", 2);
    assert_eq!(t.row_count(), 2);
    assert_eq!(t.token(1, 0), "3");
}

#[test]
fn only_line_breaks_give_no_rows() {
    assert!(matches!(rejected("\n\r\n\n", 5), TableError::NoRows));
}

#[test]
fn shorter_second_row_is_ragged() {
    match rejected("1,2,3,4,5\n1,2,3,4", 5) {
        TableError::Ragged { row, found, expected } => {
            assert_eq!((row, found, expected), (1, 4, 5));
        }
        other => panic!("unexpected {}", other.describe()),
    }
}

#[test]
fn first_ragged_row_is_reported() {
    match rejected("1,2\n3,4\n5\n6,7,8", 2) {
        TableError::Ragged { row, found, expected } => {
            assert_eq!((row, found, expected), (2, 1, 2));
        }
        other => panic!("unexpected {}", other.describe()),
    }
}

#[test]
fn wrong_feature_count_is_rejected() {
    match rejected("1,2,3,4\n5,6,7,8", 5) {
        TableError::WidthMismatch { found, expected } => {
            assert_eq!((found, expected), (4, 5));
        }
        other => panic!("unexpected {}", other.describe()),
    }
    match rejected("1,2,3,4,5,6", 5) {
        TableError::WidthMismatch { found, expected } => {
            assert_eq!((found, expected), (6, 5));
        }
        other => panic!("unexpected {}", other.describe()),
    }
}

#[test]
fn non_numeric_token_is_reported_with_its_place() {
    match rejected("1,2,abc,4,5", 5) {
        TableError::InvalidNumber { row, column, token } => {
            assert_eq!((row, column), (0, 2));
            assert_eq!(token, "abc");
        }
        other => panic!("unexpected {}", other.describe()),
    }
}

#[test]
fn first_bad_token_in_reading_order_is_reported() {
    match rejected("1,2\n3,x\ny,4", 2) {
        TableError::InvalidNumber { row, column, token } => {
            assert_eq!((row, column), (1, 1));
            assert_eq!(token, "x");
        }
        other => panic!("unexpected {}", other.describe()),
    }
}

#[test]
fn empty_field_is_not_a_number() {
    match rejected("1,,3", 3) {
        TableError::InvalidNumber { row, column, token } => {
            assert_eq!((row, column), (0, 1));
            assert_eq!(token, "");
        }
        other => panic!("unexpected {}", other.describe()),
    }
}

#[test]
fn error_descriptions() {
    assert_eq!(TableError::NoRows.describe(), "no rows of values");
    let ragged = TableError::Ragged { row: 1, found: 4, expected: 5 };
    assert_eq!(ragged.describe(), "row 2 has 4 values, expected 5");
    let width = TableError::WidthMismatch { found: 12, expected: 5 };
    assert_eq!(width.describe(), "rows have 12 values, expected 5");
    let bad = TableError::InvalidNumber { row: 0, column: 2, token: "abc".to_string() };
    assert_eq!(bad.describe(), "invalid number 'abc' at row 1, column 3");
}
