use seogi::domain::report::{
    format_detail, format_ms, format_number, format_summary, truncate, DetailReport, ProxyFigures,
    TaskReport,
};
use seogi::domain::task_size::TaskSize;
use seogi::domain::token_usage::TokenUsage;
use seogi::domain::value::Ms;

#[test]
fn format_ms_zero() {
    assert_eq!(format_ms(&Ms::new(0)), "0m");
}

#[test]
fn format_ms_negative() {
    assert_eq!(format_ms(&Ms::new(-1000)), "0m");
}

#[test]
fn format_ms_minutes_only() {
    assert_eq!(format_ms(&Ms::new(300_000)), "5m");
}

#[test]
fn format_ms_less_than_one_minute() {
    assert_eq!(format_ms(&Ms::new(30_000)), "0m");
}

#[test]
fn format_ms_hours_and_minutes() {
    assert_eq!(format_ms(&Ms::new(9_000_000)), "2h 30m");
}

#[test]
fn format_ms_exact_hours() {
    assert_eq!(format_ms(&Ms::new(10_800_000)), "3h");
}

#[test]
fn format_ms_days_and_hours() {
    assert_eq!(format_ms(&Ms::new(100_800_000)), "1d 4h");
}

#[test]
fn format_ms_exact_days() {
    assert_eq!(format_ms(&Ms::new(172_800_000)), "2d");
}

fn full_report(title: &str) -> TaskReport {
    TaskReport {
        id: "SEO-1".to_string(),
        title: title.to_string(),
        cycle_time: Some(Ms::new(9_000_000)),
        lead_time: Some(Ms::new(100_800_000)),
        tokens: Some(TokenUsage {
            input_tokens: 38_120,
            output_tokens: 7_110,
            cache_creation_input_tokens: 0,
            cache_read_input_tokens: 0,
        }),
        task_size: Some(TaskSize {
            additions: 342,
            deletions: 28,
            files_changed: 5,
        }),
        has_rework: false,
    }
}

fn empty_report(id: &str, title: &str, has_rework: bool) -> TaskReport {
    TaskReport {
        id: id.to_string(),
        title: title.to_string(),
        cycle_time: None,
        lead_time: None,
        tokens: None,
        task_size: None,
        has_rework,
    }
}

#[test]
fn format_summary_with_reports() {
    let reports = vec![full_report("MCP bootstrap")];

    let output = format_summary(&reports, 1, Some("0.52"), 100);
    assert!(output.contains("SEO-1"));
    assert!(output.contains("MCP bootstrap"));
    assert!(output.contains("2h 30m"));
    assert!(output.contains("1d 4h"));
    assert!(output.contains("45,230"));
    assert!(output.contains("+342"));
    assert!(output.contains("no"));
    assert!(output.contains("throughput: 1 tasks"));
    assert!(output.contains("flow_efficiency(avg): 0.52"));
    assert!(output.contains("first_time_done: 100%"));
}

#[test]
fn format_summary_with_none_values() {
    let reports = vec![empty_report("SEO-2", "test", true)];

    let output = format_summary(&reports, 0, None, 0);
    assert!(output.contains("\u{2014}"));
    assert!(output.contains("yes"));
}

#[test]
fn format_detail_with_full_report() {
    let reports = vec![DetailReport {
        report: full_report("MCP server bootstrap"),
        flow_efficiency_text: Some("0.52".to_string()),
        proxy: Some(ProxyFigures {
            test_invoked: true,
            doom_loop_count: 0,
            bash_error_rate_text: "0.02".to_string(),
        }),
    }];

    let output = format_detail(&reports);
    assert!(output.contains("=== SEO-1: MCP server bootstrap ==="));
    assert!(output.contains("cycle_time: 2h 30m"));
    assert!(output.contains("lead_time: 1d 4h"));
    assert!(output.contains("flow_efficiency: 0.52"));
    assert!(output.contains("tokens: 45,230 (input: 38,120 / output: 7,110)"));
    assert!(output.contains("task_size: +342 -28 (5 files)"));
    assert!(output.contains("test_invoked: true"));
    assert!(output.contains("doom_loop: 0"));
    assert!(output.contains("bash_error_rate: 0.02"));
}

#[test]
fn format_detail_with_none_values() {
    let reports = vec![DetailReport {
        report: empty_report("SEO-2", "empty task", false),
        flow_efficiency_text: None,
        proxy: None,
    }];

    let output = format_detail(&reports);
    assert!(output.contains("=== SEO-2: empty task ==="));
    assert!(output.contains("tokens: \u{2014}"));
    assert!(output.contains("task_size: \u{2014}"));
}

#[test]
fn format_number_small() {
    assert_eq!(format_number(0), "0");
    assert_eq!(format_number(999), "999");
}

#[test]
fn format_number_with_commas() {
    assert_eq!(format_number(1_000), "1,000");
    assert_eq!(format_number(45_230), "45,230");
    assert_eq!(format_number(1_000_000), "1,000,000");
}

#[test]
fn truncate_short_string() {
    assert_eq!(truncate("hello", 10), "hello");
}

#[test]
fn truncate_long_string() {
    let result = truncate("a very long title here", 10);
    assert_eq!(result.chars().count(), 10);
    assert!(result.ends_with('\u{2026}'));
}

// Own cases.

#[test]
fn format_ms_every_branch_exactly() {
    assert_eq!(format_ms(&Ms::new(59_999)), "0m");
    assert_eq!(format_ms(&Ms::new(60_000)), "1m");
    assert_eq!(format_ms(&Ms::new(3_600_000)), "1h");
    assert_eq!(format_ms(&Ms::new(3_660_000)), "1h 1m");
    assert_eq!(format_ms(&Ms::new(86_400_000)), "1d");
    assert_eq!(format_ms(&Ms::new(90_000_000)), "1d 1h");
    assert_eq!(format_ms(&Ms::new(i64::MAX)), "106751991167d 7h");
}

#[test]
fn format_number_keeps_digits() {
    for n in [0u64, 7, 12, 123, 1234, 12_345, 999_999, 1_000_001, u64::MAX] {
        let s = format_number(n);
        assert_eq!(s.replace(',', ""), n.to_string());
    }
    assert_eq!(format_number(u64::MAX), "18,446,744,073,709,551,615");
}

#[test]
fn truncate_exact_length_and_multibyte() {
    assert_eq!(truncate("abcdefghij", 10), "abcdefghij");
    assert_eq!(truncate("abcdefghijk", 10), "abcdefghi\u{2026}");
    assert_eq!(truncate("한국어제목입니다", 4), "한국어\u{2026}");
    assert_eq!(truncate("", 0), "");
}

#[test]
fn format_summary_exact_layout() {
    let output = format_summary(&[empty_report("SEO-2", "test", true)], 3, None, 67);
    let expected = [
        "ID      TITLE               CYCLE    LEAD     TOKENS   SIZE    REWORK",
        "SEO-2   test                \u{2014}        \u{2014}        \u{2014}        \u{2014}       yes",
        "---",
        "throughput: 3 tasks    flow_efficiency(avg): \u{2014}    first_time_done: 67%",
    ]
    .join("\n");
    assert_eq!(output, expected);
}

#[test]
fn format_detail_separates_sections() {
    let reports = vec![
        DetailReport {
            report: empty_report("A-1", "one", false),
            flow_efficiency_text: None,
            proxy: None,
        },
        DetailReport {
            report: empty_report("A-2", "two", false),
            flow_efficiency_text: Some("1.00".to_string()),
            proxy: Some(ProxyFigures {
                test_invoked: false,
                doom_loop_count: 2,
                bash_error_rate_text: "0.50".to_string(),
            }),
        },
    ];
    let expected = [
        "=== A-1: one ===",
        "cycle_time: \u{2014}    lead_time: \u{2014}    flow_efficiency: \u{2014}",
        "tokens: \u{2014}",
        "task_size: \u{2014}",
        "",
        "=== A-2: two ===",
        "cycle_time: \u{2014}    lead_time: \u{2014}    flow_efficiency: 1.00",
        "tokens: \u{2014}",
        "task_size: \u{2014}",
        "test_invoked: false    doom_loop: 2    bash_error_rate: 0.50",
    ]
    .join("\n");
    assert_eq!(format_detail(&reports), expected);
    assert_eq!(format_detail(&[]), "");
}
