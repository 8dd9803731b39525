use serial_agent::envparse::{parse_env, EnvError};

fn pairs_of(s: &str) -> Vec<(String, String)> {
    parse_env(s).expect("expected a well-formed env string")
}

#[test]
fn empty_blob_yields_zero_variables() {
    assert_eq!(pairs_of(""), Vec::<(String, String)>::new());
}

#[test]
fn single_pair() {
    assert_eq!(pairs_of("K=V;"), vec![("K".to_string(), "V".to_string())]);
}

#[test]
fn two_pairs_round_trip() {
    assert_eq!(
        pairs_of("K=V;K2=V2;"),
        vec![
            ("K".to_string(), "V".to_string()),
            ("K2".to_string(), "V2".to_string()),
        ]
    );
}

#[test]
fn escaped_semicolon_in_key() {
    assert_eq!(pairs_of("A\\;B=C;"), vec![("A;B".to_string(), "C".to_string())]);
}

#[test]
fn escaped_equals_in_key() {
    assert_eq!(pairs_of("A\\=B=C;"), vec![("A=B".to_string(), "C".to_string())]);
}

#[test]
fn escaped_backslash() {
    assert_eq!(pairs_of("K\\\\=V;"), vec![("K\\".to_string(), "V".to_string())]);
}

#[test]
fn escaped_chars_in_value() {
    assert_eq!(
        pairs_of("K=a\\;b\\=c;"),
        vec![("K".to_string(), "a;b=c".to_string())]
    );
}

#[test]
fn empty_key_and_value_are_allowed() {
    assert_eq!(pairs_of("=;"), vec![(String::new(), String::new())]);
}

#[test]
fn double_equals_fails() {
    assert_eq!(parse_env("K=V=X;"), Err(EnvError::SeveralValues));
}

#[test]
fn semicolon_before_equals_fails() {
    assert_eq!(parse_env("K;"), Err(EnvError::MissingValue));
}

#[test]
fn missing_trailing_semicolon_fails() {
    assert_eq!(parse_env("K=V"), Err(EnvError::Unterminated));
}

#[test]
fn second_pair_malformed_fails_whole_blob() {
    assert_eq!(parse_env("K=V;X;"), Err(EnvError::MissingValue));
}

#[test]
fn trailing_key_without_equals_is_dropped() {
    assert_eq!(pairs_of("K=V;X"), vec![("K".to_string(), "V".to_string())]);
}

#[test]
fn trailing_lone_backslash_acts_as_end() {
    assert_eq!(pairs_of("K=V;\\"), vec![("K".to_string(), "V".to_string())]);
    assert_eq!(parse_env("K=\\"), Err(EnvError::Unterminated));
}

#[test]
fn error_messages() {
    assert_eq!(EnvError::SeveralValues.message(), "Env arg has several values");
    assert_eq!(EnvError::MissingValue.message(), "Env arg is missing value");
    assert_eq!(EnvError::Unterminated.message(), "Env args are unterminated");
}
