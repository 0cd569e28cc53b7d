use telemetry_helpers::matching::Pattern;
use telemetry_helpers::output::{LogAssertionError, LogOutput};

fn json(text: &str) -> serde_json::Value {
    serde_json::from_str(text).unwrap()
}

#[test]
fn three_lines_then_exhaustion() {
    let output = LogOutput::new("a\nb\nc\n".to_string());
    let mut lines = output.lines();
    assert_eq!(lines.next_some().unwrap().text(), "a");
    assert_eq!(lines.next_some().unwrap().text(), "b");
    assert_eq!(lines.next_some().unwrap().text(), "c");
    assert!(lines.end().is_ok());
}

#[test]
fn exhausted_lines_report_whole_output() {
    let output = LogOutput::new("only line\n".to_string());
    let mut lines = output.lines();
    lines.next_some().unwrap();
    let err = lines.next_some().err().unwrap();
    let message = err.message();
    assert!(message.contains("no further log output"));
    assert!(message.ends_with("only line\n"));
    assert!(matches!(err, LogAssertionError::MissingLine { .. }));
}

#[test]
fn exhausted_lines_of_empty_output() {
    let output = LogOutput::new(String::new());
    let mut lines = output.lines();
    let message = lines.next_some().err().unwrap().message();
    assert!(message.contains("no further log output"));
    assert!(message.ends_with("Full log output:\n"));
}

#[test]
fn extra_line_is_reported() {
    let output = LogOutput::new("first\nsecond\n".to_string());
    let mut lines = output.lines();
    lines.next_some().unwrap().assert_eq("first").unwrap();
    let err = lines.end().err().unwrap();
    let message = err.message();
    assert!(message.contains("at least one more line:\nsecond\n"));
    assert!(message.ends_with("first\nsecond\n"));
}

#[test]
fn lines_split_like_str_lines() {
    let output = LogOutput::new("x\r\n\ny\rz\nlast\r".to_string());
    let mut lines = output.lines();
    assert_eq!(lines.next_some().unwrap().text(), "x");
    assert_eq!(lines.next_some().unwrap().text(), "");
    assert_eq!(lines.next_some().unwrap().text(), "y\rz");
    assert_eq!(lines.next_some().unwrap().text(), "last\r");
    assert!(lines.end().is_ok());
    assert_eq!(output.text(), "x\r\n\ny\rz\nlast\r");
}

#[test]
fn lines_without_final_newline() {
    let output = LogOutput::new("one\ntwo".to_string());
    let mut lines = output.lines();
    lines.next_some().unwrap().assert_eq("one").unwrap();
    lines.next_some().unwrap().assert_eq("two").unwrap();
    lines.end().unwrap();
}

#[test]
fn line_mismatch_reports_both_and_output() {
    let output = LogOutput::new("actual text\n".to_string());
    let mut lines = output.lines();
    let line = lines.next_some().unwrap();
    assert!(line.assert_eq("actual text").is_ok());
    let err = line.assert_eq("expected text").err().unwrap();
    let message = err.message();
    assert!(message.contains("Expected: expected text"));
    assert!(message.contains("Actual: actual text"));
    assert!(message.ends_with("Full log output:\nactual text\n"));
}

#[test]
fn duration_pattern_matches_digits_only() {
    let output = LogOutput::new(
        "END - retrieve order - SUCCESS - 12ms\nEND - retrieve order - SUCCESS - abcms\n"
            .to_string(),
    );
    let mut lines = output.lines();
    let pattern = r"^END - retrieve order - SUCCESS - \d+ms$";
    assert!(lines.next_some().unwrap().assert_regex_match(pattern).is_ok());
    let err = lines.next_some().unwrap().assert_regex_match(pattern).err().unwrap();
    assert!(matches!(err, LogAssertionError::PatternMismatch { .. }));
    assert!(err.message().contains("abcms"));
}

#[test]
fn invalid_pattern_is_reported() {
    let output = LogOutput::new("line\n".to_string());
    let mut lines = output.lines();
    let err = lines.next_some().unwrap().assert_regex_match("(unclosed").err().unwrap();
    assert!(matches!(err, LogAssertionError::InvalidPattern { .. }));
    assert!(err.message().starts_with("`(unclosed` is not a valid regular expression"));
}

#[test]
fn pattern_compiles_and_matches() {
    let p = Pattern::new(r"\d+ms").unwrap();
    assert!(p.is_match("took 12ms"));
    assert!(!p.is_match("took ms"));
    assert!(Pattern::new("[").is_err());
}

#[test]
fn pattern_verdict_follows_match() {
    let output = LogOutput::new("abc\n".to_string());
    let mut lines = output.lines();
    let line = lines.next_some().unwrap();
    assert!(line.pattern_verdict("b", true).is_ok());
    let err = line.pattern_verdict("z", false).err().unwrap();
    assert_eq!(err.message(), "`z` did not match on `abc`\nFull log output:\nabc\n");
}

#[test]
fn json_superset_accepts_extra_fields() {
    let output =
        LogOutput::new("{\"message\":\"new\",\"span\":{\"name\":\"x\"},\"extra\":1}\n".to_string());
    let mut lines = output.lines();
    let line = lines.next_some().unwrap();
    assert!(line
        .assert_json_include(json(r#"{"message":"new","span":{"name":"x"}}"#))
        .is_ok());
    let err = line.assert_json_include(json(r#"{"message":"old"}"#)).err().unwrap();
    assert!(matches!(err, LogAssertionError::JsonMismatch { .. }));
    let message = err.message();
    assert!(message.contains("message"));
    assert!(message.contains("old"));
    assert!(message.ends_with("\"extra\":1}\n"));
}

#[test]
fn json_nested_arrays_are_compared() {
    let output = LogOutput::new(
        "{\"message\":\"exit\",\"span\":{\"name\":\"retrieve order\",\"outcome\":\"success\"},\"spans\":[{\"name\":\"process total price\"}]}\n"
            .to_string(),
    );
    let mut lines = output.lines();
    lines
        .next_some()
        .unwrap()
        .assert_json_include(json(
            r#"{"message":"exit","span":{"name":"retrieve order","outcome":"success"},"spans":[{"name":"process total price"}]}"#,
        ))
        .unwrap();
}

#[test]
fn non_json_line_is_reported() {
    let output = LogOutput::new("not json\n".to_string());
    let mut lines = output.lines();
    let err = lines
        .next_some()
        .unwrap()
        .assert_json_include(json(r#"{"message":"new"}"#))
        .err()
        .unwrap();
    assert!(matches!(err, LogAssertionError::InvalidJson { .. }));
    assert!(err.message().starts_with("Failed to parse log line as JSON: "));
    assert!(err.message().contains("Log line:\nnot json"));
}

#[test]
fn json_verdict_carries_differences() {
    let output = LogOutput::new("{}\n".to_string());
    let mut lines = output.lines();
    let line = lines.next_some().unwrap();
    assert!(line.json_verdict(Ok(())).is_ok());
    let err = line.json_verdict(Err("missing .a".to_string())).err().unwrap();
    assert_eq!(
        err.message(),
        "The JSON log record doesn't include the expected fields: missing .a\n\nLog record:\n{}\n\nFull log output:\n{}\n"
    );
}

#[test]
fn shared_output_keeps_text() {
    let output = LogOutput::new("kept\n".to_string());
    let copy = output.share();
    assert_eq!(copy.text(), "kept\n");
}

#[test]
fn next_walks_lines_then_stops() {
    let output = LogOutput::new("p\nq\n".to_string());
    let mut lines = output.lines();
    assert_eq!(lines.next().unwrap().text(), "p");
    assert_eq!(lines.next().unwrap().text(), "q");
    assert!(lines.next().is_none());
    assert!(lines.next().is_none());
}
