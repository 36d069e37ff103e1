use envz::envfile::{parse_env_file, validate_key};
use envz::error::EnvzError;

#[test]
fn test_parse_env_file_basic() {
    let input = "FOO=bar\nBAZ=qux\n";
    let map = parse_env_file(input).unwrap();
    assert_eq!(map.get("FOO").unwrap(), "bar");
    assert_eq!(map.get("BAZ").unwrap(), "qux");
}

#[test]
fn test_parse_env_file_with_export() {
    let input = "export FOO=bar\nexport BAZ=qux\n";
    let map = parse_env_file(input).unwrap();
    assert_eq!(map.get("FOO").unwrap(), "bar");
}

#[test]
fn test_parse_env_file_with_quotes() {
    let input = "FOO=\"hello world\"\nBAR='single quoted'\n";
    let map = parse_env_file(input).unwrap();
    assert_eq!(map.get("FOO").unwrap(), "hello world");
    assert_eq!(map.get("BAR").unwrap(), "single quoted");
}

#[test]
fn test_parse_env_file_with_comments() {
    let input = "# comment\nFOO=bar\n\n# another\nBAZ=qux\n";
    let map = parse_env_file(input).unwrap();
    assert_eq!(map.len(), 2);
}

#[test]
fn test_parse_env_file_missing_equals() {
    assert!(parse_env_file("INVALID\n").is_err());
}

#[test]
fn test_validate_key_valid() {
    assert!(validate_key("FOO").is_ok());
    assert!(validate_key("_BAR").is_ok());
    assert!(validate_key("a1_B2").is_ok());
}

#[test]
fn test_validate_key_invalid() {
    assert!(validate_key("").is_err());
    assert!(validate_key("1ABC").is_err());
    assert!(validate_key("FOO BAR").is_err());
    assert!(validate_key("FOO;BAR").is_err());
    assert!(validate_key("FOO=BAR").is_err());
}

#[test]
fn parse_later_line_overrides_earlier() {
    let map = parse_env_file("A=1\nA=2\n").unwrap();
    assert_eq!(map.len(), 1);
    assert_eq!(map.get("A").unwrap(), "2");
}

#[test]
fn parse_crlf_lines_and_whitespace() {
    let map = parse_env_file("  KEY =  value  \r\nOTHER=x\r\n").unwrap();
    assert_eq!(map.get("KEY").unwrap(), "value");
    assert_eq!(map.get("OTHER").unwrap(), "x");
}

#[test]
fn parse_value_keeps_later_equals_and_unmatched_quotes() {
    let map = parse_env_file("URL=a=b\nQ=\"x'\nS=\"\nE=\n").unwrap();
    assert_eq!(map.get("URL").unwrap(), "a=b");
    assert_eq!(map.get("Q").unwrap(), "\"x'");
    assert_eq!(map.get("S").unwrap(), "\"");
    assert_eq!(map.get("E").unwrap(), "");
}

#[test]
fn parse_empty_quotes_give_empty_value() {
    let map = parse_env_file("A=\"\"\nB=''").unwrap();
    assert_eq!(map.get("A").unwrap(), "");
    assert_eq!(map.get("B").unwrap(), "");
}

#[test]
fn parse_missing_equals_message() {
    let e = parse_env_file("FOO=1\n\n  export INVALID  \n").unwrap_err();
    assert_eq!(e, EnvzError::ParseError("line 3: missing '=' in 'INVALID'".to_string()));
}

#[test]
fn parse_invalid_key_message() {
    let e = parse_env_file("# c\nexport 1BAD = v\n").unwrap_err();
    assert_eq!(e, EnvzError::ParseError("line 2: invalid key '1BAD'".to_string()));
}

#[test]
fn parse_first_error_wins() {
    let e = parse_env_file("NOPE\n2X=1\n").unwrap_err();
    assert_eq!(e, EnvzError::ParseError("line 1: missing '=' in 'NOPE'".to_string()));
}

#[test]
fn parse_empty_text_gives_empty_map() {
    assert!(parse_env_file("").unwrap().is_empty());
    assert!(parse_env_file("\n\n# only comments\n").unwrap().is_empty());
}

#[test]
fn parse_entries_come_sorted_by_name() {
    let map = parse_env_file("b=2\nA=1\n_c=3\na=4\n").unwrap();
    let names: Vec<&str> = map.entries().iter().map(|(k, _)| k.as_str()).collect();
    assert_eq!(names, vec!["A", "_c", "a", "b"]);
}

#[test]
fn validate_key_reports_the_name() {
    assert_eq!(validate_key("FOO-BAR"), Err(EnvzError::InvalidKey("FOO-BAR".to_string())));
    assert!(validate_key("é").is_err());
}
