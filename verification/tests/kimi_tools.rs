use fabro::json::{parse_json, Json};
use fabro::kimi_tools::{
    after_count, count_lines, grep_result_path, make_kimi_bash_tool, make_kimi_grep_tool,
    make_kimi_read_tool, make_kimi_write_tool, plan_bash, plan_grep, plan_read, plan_write,
    report_bash, report_grep, report_write, write_payload, GrepOutputMode, LineRange, ReadPlan,
};

fn json(text: &str) -> Json {
    parse_json(text).expect("test text should be JSON")
}

fn required(args: &Json, name: &str) -> Result<String, String> {
    args.get_text(name)
        .cloned()
        .ok_or_else(|| format!("missing {name}"))
}

fn optional_usize(args: &Json, name: &str) -> Result<Option<usize>, String> {
    match args.get(name) {
        None => Ok(None),
        Some(_) => args
            .get_u64(name)
            .map(|n| Some(n as usize))
            .ok_or_else(|| format!("{name} must be a non-negative integer")),
    }
}

fn member<'a>(value: &'a Json, path: &[&str]) -> &'a Json {
    path.iter().fold(value, |value, key| {
        value.get(key).unwrap_or_else(|| panic!("no member {key}"))
    })
}

// ---- Bash ----

#[test]
fn bash_schema_states_seconds_and_quotes_real_limits() {
    let tool = make_kimi_bash_tool(60_000, 600_000);
    let Json::Text(timeout) = member(&tool.parameters, &["properties", "timeout", "description"])
    else {
        panic!("the description should be text");
    };
    assert!(timeout.contains("seconds"), "{timeout}");
    assert!(timeout.contains("60"), "default should be 60s: {timeout}");
    assert!(timeout.contains("600"), "max should be 600s: {timeout}");
    assert!(
        member(&tool.parameters, &["properties"]).get("cwd").is_some(),
        "cwd missing"
    );
    assert!(tool.description.contains("timeout` is in SECONDS"));
    // There is no background shell, so none is promised.
    assert!(!tool.description.contains("run_in_background"));
}

#[test]
fn bash_timeouts_are_seconds_up_to_the_cap() {
    let plan = |text: &str| {
        let args = json(text);
        plan_bash(&args, required(&args, "command"), 60_000, 600_000)
    };
    let call = plan(r#"{"command":"make","cwd":"/src","timeout":90}"#).unwrap();
    assert_eq!(call.command, "make");
    assert_eq!(call.cwd.as_deref(), Some("/src"));
    assert_eq!(call.timeout_ms, 90_000);
    assert_eq!(plan(r#"{"command":"make"}"#).unwrap().timeout_ms, 60_000);
    assert_eq!(plan(r#"{"command":"make","timeout":601}"#).unwrap().timeout_ms, 600_000);
    assert_eq!(
        plan(r#"{"command":"make","timeout":18446744073709551615}"#).unwrap().timeout_ms,
        600_000
    );
    assert_eq!(plan(r#"{"command":"make","timeout":-1}"#).unwrap().timeout_ms, 60_000);
    assert_eq!(plan("{}"), Err("missing command".to_string()));
}

#[test]
fn bash_reports_output_then_errors_then_the_exit_code() {
    assert_eq!(report_bash("out".to_string(), "", Some(0)), "out");
    assert_eq!(report_bash("out".to_string(), "err", None), "out\nerr");
    assert_eq!(
        report_bash("out".to_string(), "err", Some(-2)),
        "out\nerr\nCommand failed with exit code: -2"
    );
    assert_eq!(
        report_bash(String::new(), "", Some(1)),
        "Command failed with exit code: 1"
    );
    assert_eq!(report_bash(String::new(), "err", Some(0)), "err");
}

// ---- Read ----

/// Reads lines of a text as a sandbox does.
fn read(text: &str, args: &str) -> Result<String, String> {
    let args = json(args);
    let (_, plan) = plan_read(&args, required(&args, "path"), optional_usize(&args, "n_lines"))?;
    let range = match plan {
        ReadPlan::Lines(range) => range,
        ReadPlan::FromEnd { from_end, n_lines } => {
            after_count(count_lines(text), from_end, n_lines)
        }
    };
    Ok(text
        .lines()
        .skip(range.start.unwrap_or(1).saturating_sub(1))
        .take(range.limit.unwrap_or(usize::MAX))
        .collect::<Vec<_>>()
        .join("\n"))
}

fn twenty_lines() -> String {
    (1..=20).map(|n| format!("line{n}")).collect::<Vec<_>>().join("\n")
}

#[test]
fn read_negative_line_offset_reads_from_the_end() {
    let out = read(&twenty_lines(), r#"{"path": "/f.txt", "line_offset": -3}"#).unwrap();

    assert!(out.contains("line18"), "{out}");
    assert!(out.contains("line20"), "{out}");
    assert!(!out.contains("line1\n"), "should not have the head: {out}");
}

#[test]
fn read_positive_line_offset_starts_there() {
    let out = read(
        &twenty_lines(),
        r#"{"path": "/f.txt", "line_offset": 5, "n_lines": 2}"#,
    )
    .unwrap();
    assert!(out.contains("line5"), "{out}");
    assert!(!out.contains("line8"), "{out}");
}

#[test]
fn reads_are_planned_by_offset_and_count() {
    let plan = |text: &str| {
        let args = json(text);
        plan_read(&args, required(&args, "path"), optional_usize(&args, "n_lines"))
    };
    let lines = |start, limit| {
        Ok((
            "f".to_string(),
            ReadPlan::Lines(LineRange { start, limit }),
        ))
    };
    assert_eq!(plan(r#"{"path":"f"}"#), lines(None, Some(2000)));
    assert_eq!(plan(r#"{"path":"f","n_lines":7}"#), lines(None, Some(7)));
    assert_eq!(plan(r#"{"path":"f","line_offset":0}"#), lines(Some(0), None));
    assert_eq!(
        plan(r#"{"path":"f","line_offset":-9223372036854775808}"#),
        Ok((
            "f".to_string(),
            ReadPlan::FromEnd {
                from_end: 1 << 63,
                n_lines: None
            }
        ))
    );
    assert_eq!(plan(r#"{"n_lines":-1}"#), Err("missing path".to_string()));
    assert_eq!(
        plan(r#"{"path":"f","n_lines":-1}"#),
        Err("n_lines must be a non-negative integer".to_string())
    );
}

#[test]
fn tails_begin_where_the_last_lines_do() {
    assert_eq!(
        after_count(20, 3, None),
        LineRange {
            start: Some(18),
            limit: Some(3)
        }
    );
    assert_eq!(
        after_count(2, 3, Some(1)),
        LineRange {
            start: Some(1),
            limit: Some(1)
        }
    );
    assert_eq!(after_count(usize::MAX, 0, None).start, Some(usize::MAX));
}

#[test]
fn lines_are_counted_like_lines_are_read() {
    for text in ["", "\n", "a", "a\n", "a\nb", "a\n\nb\n", "\r\n"] {
        assert_eq!(count_lines(text), text.lines().count(), "{text:?}");
    }
}

// ---- Write ----

fn write(existing: Option<&str>, args: &str) -> Result<String, String> {
    let args = json(args);
    let call = plan_write(&args, required(&args, "path"), required(&args, "content"))?;
    Ok(write_payload(&call, existing.map(str::to_string)))
}

#[test]
fn write_append_mode_preserves_existing_content() {
    assert_eq!(
        write(
            Some("first"),
            r#"{"path": "/f.txt", "content": "-second", "mode": "append"}"#
        )
        .unwrap(),
        "first-second"
    );
    assert_eq!(
        write(None, r#"{"path": "/f.txt", "content": "-second", "mode": "append"}"#).unwrap(),
        "-second"
    );
}

#[test]
fn write_defaults_to_overwrite() {
    assert_eq!(
        write(Some("first"), r#"{"path": "/f.txt", "content": "only"}"#).unwrap(),
        "only"
    );
}

#[test]
fn write_rejects_an_unknown_mode() {
    let err = write(
        Some("x"),
        r#"{"path": "/f.txt", "content": "y", "mode": "prepend"}"#,
    )
    .unwrap_err();
    assert!(err.contains("expected overwrite|append"), "{err}");
}

#[test]
fn write_faults_come_in_the_order_of_the_arguments() {
    assert_eq!(write(None, r#"{"mode":"prepend"}"#), Err("missing path".to_string()));
    assert_eq!(
        write(None, r#"{"path":"f","mode":"prepend"}"#),
        Err("missing content".to_string())
    );
    assert_eq!(
        write(None, r#"{"path":"f","content":"","mode":"prepend"}"#),
        Err("Invalid mode `prepend` (expected overwrite|append)".to_string())
    );
    let args = json(r#"{"path":"/f.txt","content":"c"}"#);
    let call = plan_write(&args, required(&args, "path"), required(&args, "content")).unwrap();
    assert_eq!(report_write(&call), "Wrote /f.txt");
}

// ---- Grep ----

#[test]
fn grep_result_path_handles_both_output_shapes() {
    // Directory scan: `<path>:<line>:<content>`.
    assert_eq!(
        grep_result_path("src/main.rs:42:fn main() {", "src"),
        "src/main.rs"
    );
    // A colon in the content must not be mistaken for the line field.
    assert_eq!(
        grep_result_path("src/a.rs:7:let x: u8 = 1;", "src"),
        "src/a.rs"
    );
    // Single-file scan omits the path, so fall back to what was searched.
    assert_eq!(
        grep_result_path("42:fn main() {", "src/main.rs"),
        "src/main.rs"
    );
}

fn grep_with(args: &str, lines: Vec<String>) -> Result<String, String> {
    let args = json(args);
    let call = plan_grep(
        &args,
        required(&args, "pattern"),
        optional_usize(&args, "head_limit"),
        optional_usize(&args, "offset"),
    )?;
    let cap = call.max_results.unwrap_or(usize::MAX);
    Ok(report_grep(&call, lines.into_iter().take(cap).collect()))
}

fn matches_in_two_files() -> Vec<String> {
    vec!["a.rs:1:x".into(), "a.rs:9:x".into(), "b.rs:2:x".into()]
}

#[test]
fn grep_content_mode_returns_matching_lines() {
    let out = grep_with(
        r#"{"pattern": "x"}"#,
        vec!["a.rs:1:x".into(), "b.rs:2:x".into()],
    )
    .unwrap();
    assert_eq!(out, "a.rs:1:x\nb.rs:2:x");
}

#[test]
fn grep_files_with_matches_deduplicates_paths_in_order() {
    let out = grep_with(
        r#"{"pattern": "x", "output_mode": "files_with_matches"}"#,
        matches_in_two_files(),
    )
    .unwrap();
    assert_eq!(out, "a.rs\nb.rs");
}

#[test]
fn grep_count_mode_counts_per_file() {
    let out = grep_with(
        r#"{"pattern": "x", "output_mode": "count"}"#,
        matches_in_two_files(),
    )
    .unwrap();
    assert_eq!(out, "a.rs:2\nb.rs:1");
}

#[test]
fn grep_offset_and_head_limit_page_results() {
    let lines: Vec<String> = (1..=6).map(|n| format!("f{n}.rs:1:x")).collect();
    let out = grep_with(r#"{"pattern": "x", "offset": 2, "head_limit": 2}"#, lines).unwrap();
    assert_eq!(out, "f3.rs:1:x\nf4.rs:1:x");
}

#[test]
fn grep_rejects_an_unknown_output_mode() {
    let err = grep_with(r#"{"pattern": "x", "output_mode": "json"}"#, vec![]).unwrap_err();
    assert!(
        err.contains("expected content|files_with_matches|count"),
        "{err}"
    );
}

#[test]
fn grep_reports_no_matches_plainly() {
    let out = grep_with(r#"{"pattern": "x"}"#, vec![]).unwrap();
    assert_eq!(out, "No matches found");
    let past_the_end = grep_with(r#"{"pattern": "x", "offset": 9}"#, matches_in_two_files());
    assert_eq!(past_the_end.unwrap(), "No matches found");
}

#[test]
fn grep_plans_cap_only_lines() {
    let plan = |text: &str| {
        let args = json(text);
        plan_grep(
            &args,
            required(&args, "pattern"),
            optional_usize(&args, "head_limit"),
            optional_usize(&args, "offset"),
        )
        .unwrap()
    };
    let call = plan(r#"{"pattern":"x","head_limit":2,"offset":3,"glob":"*.rs","case_insensitive":true}"#);
    assert_eq!(call.path, ".");
    assert_eq!(call.max_results, Some(5));
    assert_eq!(call.glob_filter.as_deref(), Some("*.rs"));
    assert!(call.case_insensitive);
    let counted = plan(r#"{"pattern":"x","path":"src","output_mode":"count","head_limit":2}"#);
    assert_eq!(counted.path, "src");
    assert_eq!(counted.mode, GrepOutputMode::Count);
    assert_eq!(counted.max_results, None);
    assert!(!counted.case_insensitive);
    assert_eq!(
        plan(r#"{"pattern":"x","head_limit":18446744073709551615,"offset":1}"#).max_results,
        Some(usize::MAX)
    );
}

#[test]
fn grep_pages_files_and_not_lines() {
    let out = grep_with(
        r#"{"pattern": "x", "output_mode": "files_with_matches", "head_limit": 1, "offset": 1}"#,
        matches_in_two_files(),
    );
    assert_eq!(out.unwrap(), "b.rs");
}

#[test]
fn grep_modes_are_named() {
    assert_eq!(GrepOutputMode::parse(None), Ok(GrepOutputMode::Content));
    assert_eq!(GrepOutputMode::parse(Some("count")), Ok(GrepOutputMode::Count));
    assert_eq!(
        GrepOutputMode::parse(Some("")),
        Err("Invalid output_mode `` (expected content|files_with_matches|count)".to_string())
    );
}

#[test]
fn tools_are_defined_under_canonical_names() {
    for (tool, name, required) in [
        (make_kimi_bash_tool(1, 1), "shell", r#"["command"]"#),
        (make_kimi_read_tool(), "read_file", r#"["path"]"#),
        (make_kimi_write_tool(), "write_file", r#"["path","content"]"#),
        (make_kimi_grep_tool(), "grep", r#"["pattern"]"#),
    ] {
        assert_eq!(tool.name, name);
        assert_eq!(member(&tool.parameters, &["required"]), &json(required));
        assert_eq!(
            member(&tool.parameters, &["type"]),
            &Json::Text("object".to_string())
        );
    }
    assert_eq!(
        member(
            &make_kimi_grep_tool().parameters,
            &["properties", "output_mode", "enum"]
        ),
        &json(r#"["content","files_with_matches","count"]"#)
    );
}
