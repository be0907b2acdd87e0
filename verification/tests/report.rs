use roomci::report::{
    escape_xml, evidence_assertion_name, observability_export, result_label, stable_span_id,
    stable_trace_id, timeline_export_events, to_github_step_summary, to_junit, to_markdown,
    AssertionResult, GithubFailureDetail, GithubSummaryWriter, RunReport, RunResult, RunSummary,
    ScenarioSummaryEntry, TimelineEvent,
};
use roomci::strmap::StrMap;

fn assertion(name: &str, passed: bool, message: &str, impact: Option<&str>) -> AssertionResult {
    AssertionResult {
        name: name.to_string(),
        assertion_type: "state_equals".to_string(),
        passed,
        message: message.to_string(),
        impact_level: None,
        impact_message: impact.map(|s| s.to_string()),
        reference_id: None,
    }
}

fn report(name: &str, result: RunResult, assertions: Vec<AssertionResult>) -> RunReport {
    RunReport {
        schema_version: "roomci.report.v1".to_string(),
        run_id: "run-1".to_string(),
        generated_by: "roomci".to_string(),
        scenario_name: name.to_string(),
        result,
        timeline: vec![],
        assertions,
        final_state: StrMap::new(),
        retained_messages: StrMap::new(),
    }
}

fn summary(name: &str, total: usize, failed: usize, dry_run: bool) -> RunSummary {
    RunSummary {
        schema_version: "roomci.summary.v1".to_string(),
        run_id: "batch-42".to_string(),
        total: 1,
        passed: if failed == 0 { 1 } else { 0 },
        failed: if failed == 0 { 0 } else { 1 },
        scenarios: vec![ScenarioSummaryEntry {
            sequence: 1,
            path: "examples/failing.yaml".to_string(),
            scenario_name: name.to_string(),
            result: if failed == 0 { RunResult::Passed } else { RunResult::Failed },
            assertions_total: total,
            assertions_failed: failed,
            report_dir: "01_failing".to_string(),
            dry_run,
        }],
    }
}

#[test]
fn escape_xml_replaces_reserved_and_removes_c0_controls() {
    let escaped = escape_xml("x\x00\x08<&>\"'\ntest\r\ta\x1f");

    assert_eq!(escaped, "x&lt;&amp;&gt;&quot;&apos;\ntest\r\ta");
}

#[test]
fn escape_xml_keeps_allowed_controls() {
    let escaped = escape_xml("line1\nline2\tline3\rline4");

    assert_eq!(escaped, "line1\nline2\tline3\rline4");
}

#[test]
fn escape_xml_removes_non_characters() {
    let escaped = escape_xml("safe\u{FFFE}\u{FFFF}\x00 text");

    assert_eq!(escaped, "safe text");
}

#[test]
fn renders_github_step_summary_and_limits_failed_assertions() {
    let mut failed_assertions = Vec::new();
    for index in 0..21 {
        failed_assertions.push(AssertionResult {
            reference_id: None,
            name: format!("failure-{index}"),
            assertion_type: "state_equals".to_string(),
            passed: false,
            message: format!("message-{index}"),
            impact_level: None,
            impact_message: Some(format!("impact-{index}")),
        });
    }
    let report = report("failing scenario", RunResult::Failed, failed_assertions);
    let summary = summary("failing scenario", 21, 21, false);
    let failures = report
        .assertions
        .iter()
        .map(|assertion| GithubFailureDetail {
            scenario_name: report.scenario_name.clone(),
            assertion_name: assertion.name.clone(),
            message: assertion.message.clone(),
            impact_message: assertion.impact_message.clone(),
        })
        .collect::<Vec<_>>();
    let markdown = to_github_step_summary(&summary, &failures, failures.len());

    assert!(markdown.contains("## roomci: 0 passed, 1 failed (of 1)"));
    assert!(markdown.contains("| 1 | failing scenario | ❌ failed | 0/21 |"));
    assert!(markdown.contains("### Failed assertions"));
    assert!(markdown.contains("`failing scenario` / `failure-19`: message-19"));
    assert!(!markdown.contains("failure-20"));
    assert!(markdown.contains("…and 1 more"));
}

#[test]
fn github_step_summary_escapes_table_and_code_injection_characters() {
    let report = report(
        "scenario|name\nnext",
        RunResult::Failed,
        vec![assertion("failure`name\nnext", false, "message|with\nnewline", None)],
    );
    let summary = summary("scenario|name\nnext", 1, 1, false);
    let failures = vec![GithubFailureDetail {
        scenario_name: report.scenario_name.clone(),
        assertion_name: report.assertions[0].name.clone(),
        message: report.assertions[0].message.clone(),
        impact_message: None,
    }];
    let markdown = to_github_step_summary(&summary, &failures, failures.len());

    assert!(markdown.contains("| 1 | scenario\\|name next | ❌ failed | 0/1 |"));
    assert!(markdown.contains("`scenario|name next` / `failure&#96;name next`: message|with newline"));
    assert!(!markdown.contains("scenario|name\nnext"));
    assert!(!markdown.contains("failure`name\nnext"));
}

#[test]
fn github_step_summary_neutralizes_links_html_and_oversized_content() {
    let unsafe_text = format!(
        "[click](https://example.invalid) ![pixel](https://example.invalid/x) www.example.invalid @octocat <details>{}</details>",
        "x".repeat(1_100_000)
    );
    let summary = summary(&unsafe_text, 1, 1, false);
    let failures = vec![GithubFailureDetail {
        scenario_name: unsafe_text.clone(),
        assertion_name: unsafe_text.clone(),
        message: unsafe_text.clone(),
        impact_message: None,
    }];
    let markdown = to_github_step_summary(&summary, &failures, failures.len());

    assert!(!markdown.contains("[click]("));
    assert!(!markdown.contains("![pixel]("));
    assert!(!markdown.contains("<details>"));
    assert!(!markdown.contains("https://"));
    assert!(!markdown.contains("www.example.invalid"));
    assert!(!markdown.contains("@octocat"));
    assert!(markdown.len() <= 900 * 1024);
    assert!(markdown.contains("summary truncated"));
}

#[test]
fn dry_run_summary_reports_validation_only() {
    let markdown = to_github_step_summary(&summary("smoke", 0, 0, true), &vec![], 0);
    assert_eq!(
        markdown,
        "## roomci: 1 validated (dry run; not executed)\n\n| # | Scenario | Result | Assertions |\n|---|----------|--------|------------|\n| 1 | smoke | 🟦 validated | not executed |\n"
    );
}

#[test]
fn summary_writer_cuts_at_a_character_boundary() {
    let mut writer = GithubSummaryWriter::new();
    let long = "é".repeat(500_000);
    writer.push(&long);
    writer.push("never shown");
    let text = writer.finish();
    assert!(text.len() <= 900 * 1024);
    assert!(text.ends_with("_… summary truncated; full evidence is available in the report artifacts._\n"));
    assert!(!text.contains("never shown"));
}

#[test]
fn junit_lists_each_assertion_and_counts_failures() {
    let report = report(
        "smoke & <test>",
        RunResult::Failed,
        vec![
            assertion("ok", true, "fine", None),
            assertion("bad", false, "broke \"it\"", Some("guests see a dark room")),
        ],
    );
    assert_eq!(
        to_junit(&report),
        "<?xml version=\"1.0\" encoding=\"UTF-8\"?>\n<testsuite name=\"smoke &amp; &lt;test&gt;\" tests=\"2\" failures=\"1\">\n  <testcase classname=\"roomci\" name=\"ok\"></testcase>\n  <testcase classname=\"roomci\" name=\"bad\"><failure message=\"broke &quot;it&quot;\">guests see a dark room</failure></testcase>\n</testsuite>\n"
    );
}

#[test]
fn markdown_lists_failures_timeline_and_recovery() {
    let mut report = report(
        "smoke",
        RunResult::Failed,
        vec![assertion("bad", false, "broke", None), assertion("ok", true, "fine", None)],
    );
    report.timeline.push(TimelineEvent {
        at: "T+1s".to_string(),
        event_type: "fault_activated".to_string(),
        target: Some("mqtt.local".to_string()),
        message: "offline".to_string(),
    });
    assert_eq!(
        to_markdown(&report),
        "# roomci Report — smoke\n\nResult: `failed`\n\n## Failed Assertions\n\n- `bad`: broke\n\n## Assertions\n\n- [fail] `bad` — broke\n- [pass] `ok` — fine\n\n## Timeline\n\n- `T+1s` `fault_activated` `mqtt.local`: offline\n\n## Suggested Recovery\n\n- broke\n"
    );
}

#[test]
fn stable_ids_and_labels() {
    assert_eq!(stable_trace_id("run-7"), "roomci-trace-run-7");
    assert_eq!(stable_span_id("run-7", 42), "roomci-span-run-7-000042");
    assert_eq!(stable_span_id("run-7", 1234567), "roomci-span-run-7-1234567");
    assert_eq!(result_label(RunResult::Passed), "passed");
    let mut named = assertion("temp", true, "ok", None);
    named.reference_id = Some("AC-1".to_string());
    assert_eq!(evidence_assertion_name(&named), "AC-1 (temp)");
}

#[test]
fn timeline_export_links_each_span_to_the_previous_one() {
    let mut report = report("smoke", RunResult::Passed, vec![]);
    for i in 0..2 {
        report.timeline.push(TimelineEvent {
            at: format!("T+{i}s"),
            event_type: "tick".to_string(),
            target: None,
            message: "m".to_string(),
        });
    }
    let events = timeline_export_events(&report);
    assert_eq!(events.len(), 2);
    assert_eq!(events[0].parent_span_id, None);
    assert_eq!(events[1].parent_span_id.as_deref(), Some("roomci-span-run-1-000000"));
    assert_eq!(events[1].span_id, "roomci-span-run-1-000001");
    assert_eq!(events[1].trace_id, "roomci-trace-run-1");
}

#[test]
fn observability_export_counts_events_and_assertions() {
    let mut bad = assertion("bad", false, "broke", None);
    bad.impact_level = Some("high".to_string());
    let mut worse = assertion("worse", false, "broke", None);
    worse.impact_level = Some("critical".to_string());
    let mut again = assertion("again", false, "broke", None);
    again.impact_level = Some("high".to_string());
    let mut report = report("smoke", RunResult::Failed, vec![bad, worse, again, assertion("ok", true, "fine", None)]);
    for t in ["a", "b", "a"] {
        report.timeline.push(TimelineEvent {
            at: "T".to_string(),
            event_type: t.to_string(),
            target: None,
            message: "m".to_string(),
        });
    }
    let export = observability_export(&report);
    assert_eq!(export.failed_assertion_count, 3);
    assert_eq!(export.events_by_type.get("a"), Some(&2));
    assert_eq!(export.events_by_type.get("b"), Some(&1));
    assert_eq!(export.assertions_by_status.get("passed"), Some(&1));
    assert_eq!(export.impact_levels, vec!["critical".to_string(), "high".to_string()]);
}

#[test]
fn escape_xml_leaves_no_bare_markup() {
    let escaped = escape_xml("a<b>&\"c'");
    assert_eq!(escaped, "a&lt;b&gt;&amp;&quot;c&apos;");
    assert!(!escaped.contains('<') && !escaped.contains('>') && !escaped.contains('"') && !escaped.contains('\''));
    assert_eq!(escape_xml("safe\u{FFFE}\u{FFFF}\x00 text"), "safe text");
}
