use cargo_test_json_2_html::{
    add_source_links, fallback_html, parse_line_number, parse_test_output, process_test_for_links,
    render_model, render_pieces, report_model, resolve_pieces, Config, GitHubLinker, NoSourceLinker,
    Piece, SourceLinker, TableLinker, TestEvent,
};

fn table(entries: &[(&str, u32, &str)]) -> TableLinker {
    TableLinker {
        entries: entries.iter().map(|(f, l, u)| (f.to_string(), *l, u.to_string())).collect(),
    }
}

fn example_linker() -> TableLinker {
    table(&[("src/main.rs", 18, "https://example.com/x")])
}

#[test]
fn test_pass() {
    println!("This test passes with stdout");
    assert_eq!(2 + 2, 4);
}

#[test]
fn reference_becomes_anchor() {
    let config = Config::new(example_linker());
    let out = add_source_links("thread 'main' panicked at src/main.rs:18:9:\nboom", &config);
    assert_eq!(
        out,
        "thread &#x27;main&#x27; panicked at <a href=\"https://example.com/x\" target=\"_blank\">src/main.rs:18:9</a>:\nboom"
    );
    assert_eq!(out.matches("href=\"https://example.com/x\"").count(), 1);
    assert_eq!(out.matches("https://example.com/x").count(), 1);
}

#[test]
fn unresolved_reference_stays_text() {
    let config = Config::<NoSourceLinker>::default();
    let out = add_source_links("thread panicked at src/main.rs:18:9:\nboom", &config);
    assert_eq!(out, "thread panicked at src/main.rs:18:9:\nboom");
    assert!(!out.contains("<a"));
    assert!(!out.contains("href"));
    let config = Config::new(example_linker());
    assert_eq!(add_source_links("at src/lib.rs:3:1:", &config), "at src/lib.rs:3:1:");
    assert_eq!(add_source_links("at src/main.rs:19:1:", &config), "at src/main.rs:19:1:");
}

#[test]
fn script_is_escaped() {
    let config = Config::new(table(&[("a.rs", 1, "https://h/?f=a.rs&l=1")]));
    let out = add_source_links("<script>alert('xss')</script> at a.rs:1:2:", &config);
    assert!(!out.contains("<script>"));
    assert!(out.contains("&lt;script&gt;"));
    assert!(out.contains("href=\"https://h/?f=a.rs&amp;l=1\""));
}

#[test]
fn url_is_encoded_as_text() {
    let config = Config::new(table(&[("x.rs", 7, "https://h/?f=x.rs&l=7")]));
    let out = add_source_links("at x.rs:7:1:", &config);
    assert_eq!(out, "at <a href=\"https://h/?f=x.rs&amp;l=7\" target=\"_blank\">x.rs:7:1</a>:");
}

#[test]
fn url_quotes_and_markup_are_escaped() {
    let config = Config::new(table(&[("a.rs", 1, "https://e.com/?a=1&b=<x>\"q\"")]));
    let out = add_source_links("at a.rs:1:2:", &config);
    assert_eq!(
        out,
        "at <a href=\"https://e.com/?a=1&amp;b=&lt;x&gt;&quot;q&quot;\" target=\"_blank\">a.rs:1:2</a>:"
    );
}

#[test]
fn only_rust_files_are_references() {
    let config = Config::new(table(&[("x.py", 7, "u"), ("x.rs", 7, "u")]));
    assert_eq!(add_source_links("at x.py:7:1:", &config), "at x.py:7:1:");
    assert_eq!(add_source_links("at x.rs:7:", &config), "at x.rs:7:");
    assert_eq!(add_source_links("", &config), "");
}

#[test]
fn oversized_line_number_reads_as_zero() {
    let config = Config::new(table(&[("a.rs", 0, "u")]));
    let out = add_source_links("at a.rs:99999999999:7:", &config);
    assert_eq!(out, "at <a href=\"u\" target=\"_blank\">a.rs:99999999999:7</a>:");
    assert_eq!(parse_line_number("18"), 18);
    assert_eq!(parse_line_number("4294967295"), u32::MAX);
    assert_eq!(parse_line_number("4294967296"), 0);
    assert_eq!(parse_line_number(""), 0);
    assert_eq!(parse_line_number("1a"), 0);
}

#[test]
fn table_linker_takes_first_match() {
    let linker = table(&[("a.rs", 1, "first"), ("a.rs", 1, "second"), ("b.rs", 2, "b")]);
    assert_eq!(linker.link("a.rs", 1).as_deref(), Some("first"));
    assert_eq!(linker.link("b.rs", 2).as_deref(), Some("b"));
    assert_eq!(linker.link("b.rs", 1), None);
    assert_eq!(table(&[]).link("a.rs", 1), None);
}

#[test]
fn github_linker_builds_browser_urls() {
    let linker = GitHubLinker::new("owner/repo");
    assert_eq!(linker.ref_, "main");
    assert_eq!(linker.link("src/lib.rs", 42), Some("https://github.com/owner/repo/blob/main/src/lib.rs#L42".to_string()));
    let linker = linker.with_ref("v1.2");
    assert_eq!(linker.repo, "owner/repo");
    assert_eq!(linker.url("a.rs", 0), "https://github.com/owner/repo/blob/v1.2/a.rs#L0");
    assert_eq!(NoSourceLinker.link("a.rs", 1), None);
}

#[test]
fn github_linker_links_references() {
    let linker = GitHubLinker::new("owner/repo").with_ref("v1");
    let out = add_source_links("at src/main.rs:18:9:", &Config::new(linker));
    assert_eq!(
        out,
        "at <a href=\"https://github.com/owner/repo/blob/v1/src/main.rs#L18\" target=\"_blank\">src/main.rs:18:9</a>:"
    );
}

#[test]
fn default_config_gives_escaped_text() {
    let text = "panicked at src/main.rs:18:9: \"x\" <y>";
    let out = add_source_links(text, &Config::<NoSourceLinker>::default());
    assert_eq!(out, "panicked at src/main.rs:18:9: &quot;x&quot; &lt;y&gt;");
}

#[test]
fn suite_events_pass_through() {
    let results = parse_test_output(r#"{ "type": "suite", "event": "ok", "passed": 2 }"#);
    let ev = results.suite_info.as_ref().unwrap();
    let out = process_test_for_links(ev, &Config::new(example_linker()));
    match out {
        TestEvent::Suite { event, passed, .. } => {
            assert_eq!(event, "ok");
            assert_eq!(passed, Some(2));
        }
        _ => panic!("shape changed"),
    }
}

#[test]
fn model_counts_and_links() {
    let input = "{\"type\":\"test\",\"name\":\"a\",\"event\":\"ok\",\"stdout\":\"<b> at s.rs:1:2:\"}\n{\"type\":\"test\",\"name\":\"b\",\"event\":\"ok\"}\n{\"type\":\"test\",\"name\":\"c\",\"event\":\"failed\",\"exec_time\":0.5}\nnoise\n{ bad";
    let results = parse_test_output(input);
    let model = render_model(&results, &Config::new(table(&[("s.rs", 1, "https://h/?f=s.rs&l=1")])));
    assert_eq!(model.passed_count, 2);
    assert_eq!(model.failed_count, 1);
    assert_eq!(model.ignored_count, 0);
    assert_eq!(model.raw_lines, vec!["noise".to_string()]);
    assert_eq!(model.errors.len(), 1);
    match &model.passed[0] {
        TestEvent::Test { stdout, name, .. } => {
            assert_eq!(name, "a");
            assert_eq!(
                stdout.as_deref(),
                Some("&lt;b&gt; at <a href=\"https://h/?f=s.rs&amp;l=1\" target=\"_blank\">s.rs:1:2</a>:")
            );
        }
        _ => panic!("not a test"),
    }
    match &model.failed[0] {
        TestEvent::Test { stdout, exec_time, .. } => {
            assert_eq!(stdout, &None);
            assert_eq!(exec_time.as_deref(), Some("0.5"));
        }
        _ => panic!("not a test"),
    }
}

#[test]
fn report_model_counts_ok_lines() {
    let input = "{ \"type\": \"test\", \"name\": \"x\", \"event\": \"ok\" }\nnoise\n{ \"type\": \"test\", \"name\": \"y\", \"event\": \"ok\" }\n{ \"type\": \"test\", \"name\": \"w\", \"event\": \"failed\" }\n{ \"type\": \"test\", \"name\": \"z\", \"event\": \"ok\" }\n";
    let model = report_model(input, &Config::<NoSourceLinker>::default());
    assert_eq!(model.passed_count, 3);
    assert_eq!(model.failed_count, 1);
}

#[test]
fn fallback_page_escapes_message() {
    assert_eq!(
        fallback_html("bad <tag> & \"q\""),
        "<html><body><h1>Template Error</h1><p>bad &lt;tag&gt; &amp; &quot;q&quot;</p></body></html>"
    );
}

#[test]
fn pieces_render_with_given_targets() {
    let pieces = vec![
        Piece::Text("x ".to_string()),
        Piece::Ref { file: "a.rs".to_string(), line: "3".to_string(), col: "4".to_string() },
        Piece::Text(" y ".to_string()),
        Piece::Ref { file: "b.rs".to_string(), line: "5".to_string(), col: "6".to_string() },
    ];
    let urls = vec![None, Some("u<1>=\"".to_string()), None, None];
    assert_eq!(
        render_pieces(&pieces, &urls),
        "x at <a href=\"u&lt;1&gt;=&quot;\" target=\"_blank\">a.rs:3:4</a>: y at b.rs:5:6:"
    );
    let resolved = resolve_pieces(&pieces, &Config::new(example_linker()));
    assert_eq!(resolved, vec![None, None, None, None]);
    let resolved = resolve_pieces(&pieces, &Config::new(table(&[("a.rs", 3, "A"), ("x ", 0, "T")])));
    assert_eq!(resolved, vec![None, Some("A".to_string()), None, None]);
}
