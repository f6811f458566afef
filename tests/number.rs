use varion_backend::is_float_token;

#[test]
fn plain_decimals_are_numbers() {
    for t in ["0", "42", "-7", "+3", "1.5", "1.", ".5", "-0.25", "92.56008643"] {
        assert!(is_float_token(t), "{}", t);
    }
}

#[test]
fn exponents_are_numbers() {
    for t in ["1e5", "1E5", "2.5e-3", "-.5E+10", "7.e0"] {
        assert!(is_float_token(t), "{}", t);
    }
}

#[test]
fn special_values_are_numbers() {
    for t in ["inf", "INF", "-inf", "+Infinity", "infinity", "NaN", "nan", "-nAn"] {
        assert!(is_float_token(t), "{}", t);
    }
}

#[test]
fn malformed_tokens_are_not_numbers() {
    for t in [
        "", "abc", ".", "-", "+", "e5", "1e", "1e+", "1.2.3", " 1", "1 ", "1,2", "--1", "in",
        "infinit", "nanx", "0x10", "1_000",
    ] {
        assert!(!is_float_token(t), "{}", t);
    }
}

#[test]
fn grammar_agrees_with_std_parse() {
    let samples = [
        "0", "-7", "1.", ".5", "1e5", "2.5e-3", "inf", "+Infinity", "NaN", "", "abc", ".", "e5",
        "1e", "1.2.3", " 1", "--1", "infinit", "1E+07", "-.5E+10",
    ];
    for t in samples {
        assert_eq!(is_float_token(t), t.parse::<f32>().is_ok(), "{}", t);
    }
}
