use varion_backend::{complete, decimal_text, join_values, validate_request, PredictionResult};

fn failure_message(r: PredictionResult) -> String {
    match r {
        PredictionResult::Failure(f) => f.message,
        PredictionResult::Success(s) => panic!("unexpected success {}", s),
    }
}

fn validation_failure(text: &str, width: usize) -> String {
    match validate_request(text, width) {
        Ok(_) => panic!("accepted {:?}", text),
        Err(r) => failure_message(r),
    }
}

#[test]
fn empty_input_fails_with_fixed_message() {
    assert_eq!(validation_failure("", 5), "Invalid input: CSV content is empty");
}

#[test]
fn inconsistent_rows_fail() {
    assert_eq!(
        validation_failure("1,2,3,4,5\n1,2,3,4", 5),
        "Prediction failed: row 2 has 4 values, expected 5"
    );
}

#[test]
fn non_numeric_token_fails() {
    assert_eq!(
        validation_failure("1,2,abc,4,5", 5),
        "Prediction failed: invalid number 'abc' at row 1, column 3"
    );
}

#[test]
fn wrong_width_fails() {
    assert_eq!(
        validation_failure("1,2,3", 5),
        "Prediction failed: rows have 3 values, expected 5"
    );
}

#[test]
fn whitespace_only_lines_fail() {
    assert_eq!(validation_failure("\n", 5), "Prediction failed: no rows of values");
}

#[test]
fn row_of_means_is_accepted() {
    let text = "92.56008643,104.46793431,96.76034648,24.68794296,37.15878695";
    match validate_request(text, 5) {
        Ok(t) => {
            assert_eq!(t.row_count(), 1);
            assert_eq!(t.column_count(), 5);
            assert_eq!(t.token(0, 1), "104.46793431");
        }
        Err(r) => panic!("rejected: {}", failure_message(r)),
    }
}

#[test]
fn outputs_are_joined_by_commas() {
    let values = vec!["0.5".to_string(), "-1".to_string(), "3.25".to_string()];
    assert_eq!(join_values(&values), "0.5,-1,3.25");
    assert_eq!(join_values(&vec!["7".to_string()]), "7");
    assert_eq!(join_values(&Vec::new()), "");
}

#[test]
fn successful_run_completes_with_joined_outputs() {
    match complete(Ok(vec!["0.1".to_string(), "0.9".to_string()])) {
        PredictionResult::Success(s) => assert_eq!(s, "0.1,0.9"),
        PredictionResult::Failure(f) => panic!("unexpected failure {}", f.message),
    }
}

#[test]
fn success_payload_splits_into_one_field_per_value() {
    let values = vec!["-0.25".to_string(), "1".to_string(), "3.5e-7".to_string()];
    match complete(Ok(values.clone())) {
        PredictionResult::Success(s) => {
            let fields: Vec<String> = s.split(',').map(|f| f.to_string()).collect();
            assert_eq!(fields, values);
        }
        PredictionResult::Failure(f) => panic!("unexpected failure {}", f.message),
    }
}

#[test]
fn failed_run_completes_with_prefixed_message() {
    let r = complete(Err("shape mismatch".to_string()));
    assert_eq!(failure_message(r), "Prediction failed: shape mismatch");
}

#[test]
fn decimal_forms() {
    assert_eq!(decimal_text(0), "0");
    assert_eq!(decimal_text(9), "9");
    assert_eq!(decimal_text(10), "10");
    assert_eq!(decimal_text(1234567890), "1234567890");
    assert_eq!(decimal_text(u128::MAX), u128::MAX.to_string());
}
