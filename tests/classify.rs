use cargo_test_json_2_html::{classify_line, decode_event, decode_problem_text, parse_test_output, JsonField, TestEvent, TestResults};

#[test]
fn test_basic_parsing() {
    let input = r#"{ "type": "suite", "event": "started", "test_count": 3 }
{ "type": "test", "event": "started", "name": "tests::test_pass" }
{ "type": "test", "name": "tests::test_pass", "event": "ok", "stdout": "This test passes\n" }
{ "type": "test", "event": "started", "name": "tests::test_fail" }
{ "type": "test", "name": "tests::test_fail", "event": "failed", "stdout": "This test fails\n" }
{ "type": "suite", "event": "failed", "passed": 1, "failed": 1, "ignored": 0 }"#;

    let results = parse_test_output(input);
    assert_eq!(results.passed.len(), 1);
    assert_eq!(results.failed.len(), 1);
    assert_eq!(results.ignored.len(), 0);
    assert!(results.suite_info.is_some());
}

#[test]
fn test_mixed_content() {
    let input = r#"   Compiling test-project v0.1.0
{ "type": "test", "name": "tests::test_pass", "event": "ok" }
Some non-JSON output
{ "type": "suite", "event": "ok", "passed": 1, "failed": 0 }"#;

    let results = parse_test_output(input);
    assert_eq!(results.passed.len(), 1);
    assert_eq!(results.raw_lines.len(), 2);
}

fn test_name(ev: &TestEvent) -> &str {
    match ev {
        TestEvent::Test { name, .. } => name.as_str(),
        TestEvent::Suite { .. } => panic!("not a test event"),
    }
}

#[test]
fn empty_input_leaves_every_bucket_empty() {
    let results = parse_test_output("");
    assert!(results.passed.is_empty());
    assert!(results.failed.is_empty());
    assert!(results.ignored.is_empty());
    assert!(results.suite_info.is_none());
    assert!(results.errors.is_empty());
    assert!(results.raw_lines.is_empty());
}

#[test]
fn ok_line_lands_in_passed_only() {
    let results = parse_test_output(r#"{ "type": "test", "name": "a::b", "event": "ok" }"#);
    assert_eq!(results.passed.len(), 1);
    assert_eq!(test_name(&results.passed[0]), "a::b");
    assert!(results.failed.is_empty());
    assert!(results.ignored.is_empty());
    assert!(results.errors.is_empty());
    assert!(results.raw_lines.is_empty());
    assert!(results.suite_info.is_none());
}

#[test]
fn later_suite_line_is_kept() {
    let input = "{ \"type\": \"suite\", \"event\": \"started\", \"test_count\": 3 }\n{ \"type\": \"suite\", \"event\": \"ok\", \"passed\": 3 }";
    let results = parse_test_output(input);
    match results.suite_info {
        Some(TestEvent::Suite { event, passed, test_count, .. }) => {
            assert_eq!(event, "ok");
            assert_eq!(passed, Some(3));
            assert_eq!(test_count, None);
        }
        _ => panic!("no suite summary kept"),
    }
}

#[test]
fn compiler_output_is_raw_text() {
    let results = parse_test_output("   Compiling foo v0.1.0");
    assert_eq!(results.raw_lines, vec!["Compiling foo v0.1.0".to_string()]);
    assert!(results.errors.is_empty());
}

#[test]
fn broken_json_is_an_error() {
    let results = parse_test_output("{ not json at all");
    assert_eq!(results.errors.len(), 1);
    assert!(results.errors[0].starts_with("Failed to parse JSON: "));
    assert!(results.errors[0].ends_with(" - Line: { not json at all"));
    assert!(results.raw_lines.is_empty());
}

#[test]
fn valid_json_of_another_shape_is_an_error() {
    let results = parse_test_output(r#"{ "type": "bench", "name": "x", "event": "ok" }"#);
    assert_eq!(
        results.errors,
        vec![r#"Failed to parse JSON: unknown event type `bench` - Line: { "type": "bench", "name": "x", "event": "ok" }"#.to_string()]
    );
    let results = parse_test_output(r#"{ "type": "test", "event": "ok" }"#);
    assert_eq!(results.errors.len(), 1);
    let results = parse_test_output(r#"{ "type": "suite", "event": "ok", "passed": -1 }"#);
    assert_eq!(results.errors.len(), 1);
    let results = parse_test_output(r#"{ "type": "test", "name": "n", "event": "ok", "stdout": 5 }"#);
    assert_eq!(results.errors.len(), 1);
}

#[test]
fn started_and_unknown_outcomes_are_raw_lines() {
    let input = "{ \"type\": \"test\", \"event\": \"started\", \"name\": \"t\" }\n{ \"type\": \"test\", \"event\": \"timeout\", \"name\": \"t\" }";
    let results = parse_test_output(input);
    assert_eq!(results.raw_lines.len(), 2);
    assert_eq!(results.raw_lines[0], "{ \"type\": \"test\", \"event\": \"started\", \"name\": \"t\" }");
    assert!(results.passed.is_empty());
}

#[test]
fn buckets_keep_input_order() {
    let input = "{\"type\":\"test\",\"name\":\"one\",\"event\":\"ok\"}\n\n  \r\n{\"type\":\"test\",\"name\":\"two\",\"event\":\"failed\"}\r\n{\"type\":\"test\",\"name\":\"three\",\"event\":\"ok\"}\n{\"type\":\"test\",\"name\":\"four\",\"event\":\"ignored\"}\n";
    let results = parse_test_output(input);
    let names: Vec<&str> = results.passed.iter().map(test_name).collect();
    assert_eq!(names, vec!["one", "three"]);
    assert_eq!(test_name(&results.failed[0]), "two");
    assert_eq!(test_name(&results.ignored[0]), "four");
    assert!(results.raw_lines.is_empty());
}

#[test]
fn fields_and_times_are_decoded() {
    let results = parse_test_output(
        r#"{ "type": "test", "name": "t", "event": "failed", "stdout": "boom\n", "exec_time": 0.25, "extra": [1] }"#,
    );
    match &results.failed[0] {
        TestEvent::Test { stdout, exec_time, .. } => {
            assert_eq!(stdout.as_deref(), Some("boom\n"));
            assert_eq!(exec_time.as_deref(), Some("0.25"));
        }
        _ => panic!("not a test event"),
    }
    let results = parse_test_output(
        r#"{ "type": "suite", "event": "ok", "passed": 4294967295, "failed": null, "exec_time": 1.5 }"#,
    );
    match results.suite_info {
        Some(TestEvent::Suite { passed, failed, exec_time, .. }) => {
            assert_eq!(passed, Some(u32::MAX));
            assert_eq!(failed, None);
            assert_eq!(exec_time.as_deref(), Some("1.5"));
        }
        _ => panic!("no suite summary"),
    }
    let results = parse_test_output(r#"{ "type": "suite", "event": "ok", "passed": 4294967296 }"#);
    assert_eq!(results.errors.len(), 1);
}

#[test]
fn classify_line_takes_the_parse_result() {
    let mut results = TestResults::new();
    classify_line(&mut results, "{ x", Err("bad".to_string()));
    assert_eq!(results.errors, vec!["Failed to parse JSON: bad - Line: { x".to_string()]);
    classify_line(&mut results, "plain", Err("bad".to_string()));
    assert_eq!(results.raw_lines, vec!["plain".to_string()]);
    let fields = vec![
        ("event".to_string(), JsonField::Text("ignored".to_string())),
        ("name".to_string(), JsonField::Text("n".to_string())),
        ("type".to_string(), JsonField::Text("test".to_string())),
    ];
    classify_line(&mut results, "{ignored}", Ok(fields));
    assert_eq!(results.ignored.len(), 1);
    assert_eq!(test_name(&results.ignored[0]), "n");
    classify_line(&mut results, "{shape}", Ok(vec![("type".to_string(), JsonField::Bool(true))]));
    assert_eq!(results.errors[1], "Failed to parse JSON: missing or invalid field `type` - Line: {shape}");
}

#[test]
fn decode_reads_each_member_kind() {
    let fields = vec![
        ("type".to_string(), JsonField::Text("suite".to_string())),
        ("event".to_string(), JsonField::Text("ok".to_string())),
        ("test_count".to_string(), JsonField::Number { unsigned: Some(3), text: "3".to_string() }),
        ("exec_time".to_string(), JsonField::Number { unsigned: None, text: "0.5".to_string() }),
        ("other".to_string(), JsonField::Array),
    ];
    match decode_event(&fields) {
        Some(TestEvent::Suite { event, test_count, passed, exec_time, .. }) => {
            assert_eq!(event, "ok");
            assert_eq!(test_count, Some(3));
            assert_eq!(passed, None);
            assert_eq!(exec_time.as_deref(), Some("0.5"));
        }
        _ => panic!("suite not decoded"),
    }
    let fields = vec![
        ("type".to_string(), JsonField::Text("suite".to_string())),
        ("event".to_string(), JsonField::Text("ok".to_string())),
        ("passed".to_string(), JsonField::Number { unsigned: None, text: "1.5".to_string() }),
    ];
    assert!(decode_event(&fields).is_none());
    let fields = vec![
        ("type".to_string(), JsonField::Text("test".to_string())),
        ("event".to_string(), JsonField::Text("ok".to_string())),
        ("name".to_string(), JsonField::Null),
    ];
    assert!(decode_event(&fields).is_none());
    assert!(decode_event(&Vec::new()).is_none());
}

#[test]
fn n_ok_lines_give_n_passed() {
    let mut input = String::new();
    for i in 0..7 {
        input.push_str(&format!("{{ \"type\": \"test\", \"name\": \"t{}\", \"event\": \"ok\" }}\n", i));
    }
    let results = parse_test_output(&input);
    assert_eq!(results.passed.len(), 7);
}

#[test]
fn arbitrary_garbage_is_handled() {
    let results = parse_test_output("\u{0}\u{ffff}{{{\n\u{1F600} ]]\n{\"type\":");
    assert_eq!(results.errors.len(), 1);
    assert_eq!(results.raw_lines.len(), 2);
}

#[test]
fn shape_errors_name_the_failing_member() {
    let results = parse_test_output(r#"{ "type": "test", "event": "ok" }"#);
    assert_eq!(results.errors[0], r#"Failed to parse JSON: missing or invalid field `name` - Line: { "type": "test", "event": "ok" }"#);
    let results = parse_test_output(r#"{ "type": "suite", "event": "ok", "passed": -1 }"#);
    assert_eq!(results.errors[0], r#"Failed to parse JSON: missing or invalid field `passed` - Line: { "type": "suite", "event": "ok", "passed": -1 }"#);
    let fields = vec![
        ("type".to_string(), JsonField::Text("test".to_string())),
        ("event".to_string(), JsonField::Text("ok".to_string())),
        ("name".to_string(), JsonField::Text("n".to_string())),
        ("exec_time".to_string(), JsonField::Text("slow".to_string())),
    ];
    assert_eq!(decode_problem_text(&fields), "missing or invalid field `exec_time`");
    assert_eq!(decode_problem_text(&Vec::new()), "missing or invalid field `type`");
}
