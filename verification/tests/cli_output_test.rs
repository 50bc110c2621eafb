use kim::cli::apps::{apps_report, clamp_top, render_apps, AppRow};
use kim::cli::history::{
    date_cell, days_offset, history_day_report_at, history_days_report, num_cell, render_day_json_at,
    render_days_json_at, render_days_list, resolve_history_date,
};
use kim::cli::langs::{format_duration, langs_report, render_langs, LangRow};
use kim::cli::today::{render_today, render_today_at, today_report, DailyStats};
use kim::cli::{display_width, format_number, pad_right_to};

fn day(date: &str, ks: i64, mc: i64, ch: i64, cc: i64, cv: i64) -> DailyStats {
    DailyStats {
        date: date.to_string(),
        keystrokes: ks,
        mouse_clicks: mc,
        characters: ch,
        ctrl_c: cc,
        ctrl_v: cv,
        updated_at: 1741000000,
    }
}

fn render_to_string(date: &str, ks: i64, mc: i64, ch: i64, cc: i64, cv: i64) -> String {
    render_today(&day(date, ks, mc, ch, cc, cv))
}

// ─── format_number ──────────────────────────────────────────────────────

#[test]
fn test_format_number_zero() {
    assert_eq!(format_number(0), "0");
}

#[test]
fn test_format_number_below_1000() {
    assert_eq!(format_number(999), "999");
}

#[test]
fn test_format_number_thousands() {
    assert_eq!(format_number(1_000), "1,000");
    assert_eq!(format_number(12_345), "12,345");
    assert_eq!(format_number(1_234_567), "1,234,567");
}

#[test]
fn format_number_negative_and_extremes() {
    assert_eq!(format_number(-1_234), "-1,234");
    assert_eq!(format_number(-7), "-7");
    assert_eq!(format_number(1_000_005), "1,000,005");
    assert_eq!(format_number(i64::MAX), "9,223,372,036,854,775,807");
    assert_eq!(format_number(-i64::MAX), "-9,223,372,036,854,775,807");
}

#[test]
fn format_number_strips_to_plain_digits() {
    for n in [0i64, 7, 999, 1000, 65_536, 10_000_000, 123_456_789_012] {
        assert_eq!(format_number(n).replace(',', ""), n.to_string());
    }
}

// ─── display width / padding ─────────────────────────────────────────────

#[test]
fn display_width_counts_cjk_twice() {
    assert_eq!(display_width(""), 0);
    assert_eq!(display_width("abc"), 3);
    assert_eq!(display_width("今日"), 4);
    assert_eq!(display_width("复制 (Ctrl+C)"), 13);
    assert_eq!(display_width("ｶ"), 1); // U+FF76 lies outside the wide ranges
    assert_eq!(display_width("！"), 2); // U+FF01
}

#[test]
fn pad_right_to_reaches_target_width() {
    assert_eq!(pad_right_to("ab", 5), "ab   ");
    assert_eq!(pad_right_to("今日", 6), "今日  ");
    assert_eq!(pad_right_to("toolong", 3), "toolong");
    assert_eq!(display_width(&pad_right_to("键盘敲击次数", 16)), 16);
}

// ─── render_today ─────────────────────────────────────────────────────

#[test]
fn test_render_today_contains_comma_separated_keystrokes() {
    let out = render_to_string("2026-03-06", 12_345, 1_234, 8_901, 45, 38);
    assert!(out.contains("12,345"), "Expected '12,345' in output:\n{}", out);
}

#[test]
fn test_render_today_contains_all_field_values() {
    let out = render_to_string("2026-03-06", 12_345, 1_234, 8_901, 45, 38);
    assert!(out.contains("1,234"), "mouse_clicks in:\n{}", out);
    assert!(out.contains("8,901"), "characters in:\n{}", out);
    assert!(out.contains("45"), "ctrl_c in:\n{}", out);
    assert!(out.contains("38"), "ctrl_v in:\n{}", out);
    assert!(out.contains("2026-03-06"), "date in:\n{}", out);
}

#[test]
fn test_render_today_has_box_drawing_chars() {
    let out = render_to_string("2026-03-06", 100, 50, 80, 3, 2);
    assert!(out.contains('┌'), "top-left ┌");
    assert!(out.contains('┐'), "top-right ┐");
    assert!(out.contains('└'), "bottom-left └");
    assert!(out.contains('┘'), "bottom-right ┘");
    assert!(out.contains('│'), "vertical bars │");
    assert!(out.contains('─'), "horizontal bars ─");
}

#[test]
fn test_render_today_zero_values() {
    let out = render_to_string("2026-01-01", 0, 0, 0, 0, 0);
    // Should still render a valid table.
    assert!(out.contains('┌'));
    assert!(out.contains("2026-01-01"));
}

#[test]
fn render_today_matches_documented_layout() {
    let out = render_today_at(&day("2026-03-06", 12_345, 1_234, 8_901, 45, 38), "14:32:05");
    let expected = "\
┌─────────────────────────────────────────────┐
│  今日输入统计  2026-03-06                   │
├─────────────────┬───────────────────────────┤
│ 键盘敲击次数    │ 12,345                    │
│ 鼠标点击次数    │  1,234                    │
│ 打字字符数      │  8,901                    │
│ 复制 (Ctrl+C)   │     45                    │
│ 粘贴 (Ctrl+V)   │     38                    │
└─────────────────┴───────────────────────────┘
（数据最后更新: 14:32:05，更新间隔 ≤30s）
";
    assert_eq!(out, expected);
}

#[test]
fn today_report_variants() {
    let none = today_report(&Ok(None));
    assert_eq!(none.code, 1);
    assert_eq!(none.stdout, "No data for today yet.  Start kim with: kim start\n");
    let err = today_report(&Err("disk I/O error".to_string()));
    assert_eq!(err.code, 2);
    assert_eq!(err.stderr, "Database error: disk I/O error\n");
    assert!(err.stdout.is_empty());
    let some = today_report(&Ok(Some(day("2026-03-06", 1, 2, 3, 4, 5))));
    assert_eq!(some.code, 0);
    assert!(some.stdout.contains("2026-03-06"));
}

// ─── apps ───────────────────────────────────────────────────────────────

fn app(name: &str, ks: i64, ch: i64, cc: i64, cv: i64) -> AppRow {
    AppRow { process_name: name.to_string(), keystrokes: ks, characters: ch, ctrl_c: cc, ctrl_v: cv }
}

#[test]
fn render_apps_layout() {
    let rows = vec![app("code", 12_345, 8_000, 12, 3), app("a-really-long-process-name", 5, 4, 0, 0)];
    let out = render_apps(&rows, "2026-03-06");
    let lines: Vec<&str> = out.lines().collect();
    assert_eq!(lines.len(), 8);
    assert_eq!(lines[0], format!("┌{}┐", "─".repeat(58)));
    assert_eq!(lines[1], format!("│  按应用输入统计  2026-03-06{}│", " ".repeat(30)));
    assert_eq!(lines[3], "│ 应用             │ 键击     │ 字符     │ 复制   │ 粘贴   │");
    assert_eq!(lines[5], "│ code             │   12,345 │    8,000 │     12 │      3 │");
    assert_eq!(lines[6], "│ a-really-long-pr…│        5 │        4 │      0 │      0 │");
    assert_eq!(lines[7], "└──────────────────┴──────────┴──────────┴────────┴────────┘");
}

#[test]
fn apps_report_variants_and_clamp() {
    assert_eq!(clamp_top(0), 1);
    assert_eq!(clamp_top(10), 10);
    assert_eq!(clamp_top(500), 100);
    let empty = apps_report("2026-03-06", &Ok(vec![]));
    assert_eq!(empty.code, 1);
    assert_eq!(empty.stdout, "No app data for 2026-03-06.  Start kim with: kim start\n");
    let err = apps_report("2026-03-06", &Err("locked".to_string()));
    assert_eq!(err.code, 2);
    assert_eq!(err.stderr, "Database error: locked\n");
    let some = apps_report("2026-03-06", &Ok(vec![app("code", 1, 1, 0, 0)]));
    assert_eq!(some.code, 0);
    assert!(some.stdout.contains("│ code"));
}

// ─── langs ──────────────────────────────────────────────────────────────

#[test]
fn format_duration_values() {
    assert_eq!(format_duration(0), "0m");
    assert_eq!(format_duration(-5), "0m");
    assert_eq!(format_duration(59), "<1m");
    assert_eq!(format_duration(30), "<1m");
    assert_eq!(format_duration(60), "1m");
    assert_eq!(format_duration(120), "2m");
    assert_eq!(format_duration(3_600), "1h 0m");
    assert_eq!(format_duration(3_900), "1h 5m");
    assert_eq!(format_duration(90_061), "25h 1m");
}

#[test]
fn render_langs_layout() {
    let rows = vec![LangRow { language: "Rust".to_string(), characters: 1_234, focus_seconds: 3_900 }];
    let out = render_langs(&rows, "2026-03-06");
    let lines: Vec<&str> = out.lines().collect();
    assert_eq!(lines.len(), 7);
    assert_eq!(lines[3], "│ 语言           │ 字符数     │ 专注时间   │");
    assert_eq!(lines[5], "│ Rust           │     1,234  │     1h 5m  │");
    assert_eq!(lines[6], "└────────────────┴────────────┴────────────┘");
}

#[test]
fn langs_report_variants() {
    let empty = langs_report("2026-03-06", &Ok(vec![]));
    assert_eq!(empty.stdout, "No language data for 2026-03-06.  Start kim with: kim start\n");
    assert_eq!(empty.code, 1);
    let err = langs_report("2026-03-06", &Err("x".to_string()));
    assert_eq!((err.code, err.stderr.as_str()), (2, "Database error: x\n"));
}

// ─── history ────────────────────────────────────────────────────────────

#[test]
fn history_cells() {
    assert_eq!(date_cell("2026-03-06"), " 2026-03-06 ");
    assert_eq!(date_cell("2026-3-6"), " 2026-3-6   ");
    assert_eq!(num_cell(12_345, 10), "   12,345 ");
    assert_eq!(num_cell(7, 7), "     7 ");
    assert_eq!(num_cell(7, 1), " 7 ");
    assert_eq!(days_offset(7), "-6 days");
    assert_eq!(days_offset(0), "-0 days");
}

#[test]
fn render_days_list_layout() {
    let rows = vec![day("2026-03-06", 12_345, 1_234, 8_901, 45, 38)];
    let out = render_days_list("最近 7 天统计", &rows);
    let lines: Vec<&str> = out.lines().collect();
    assert_eq!(lines.len(), 6);
    assert_eq!(lines[0], "最近 7 天统计");
    assert_eq!(lines[2], "│ 日期       │ 键盘     │ 鼠标   │ 字符   │ 复制  │ 粘贴  │");
    assert_eq!(lines[4], "│ 2026-03-06 │   12,345 │  1,234 │  8,901 │    45 │    38 │");
}

#[test]
fn days_json_layout() {
    let d = day("2026-03-06", 1, 2, 3, -4, 5);
    assert_eq!(
        render_day_json_at(&d, "T"),
        "{\"date\": \"2026-03-06\", \"keystrokes\": 1, \"mouse_clicks\": 2, \"characters\": 3, \"ctrl_c\": -4, \"ctrl_v\": 5, \"last_updated\": \"T\"}"
    );
    let rows = vec![d, day("2026-03-05", 10_000, 0, 0, 0, 0)];
    let out = render_days_json_at(&rows, &vec!["A".to_string(), "B".to_string()]);
    assert!(out.starts_with("[\n  {\"date\": \"2026-03-06\""));
    assert!(out.contains("\"last_updated\": \"A\"},\n  {\"date\": \"2026-03-05\", \"keystrokes\": 10000"));
    assert!(out.ends_with("\"last_updated\": \"B\"}\n]"));
}

#[test]
fn history_reports() {
    assert_eq!(resolve_history_date("2026-03-05"), "2026-03-05");
    assert_eq!(resolve_history_date("yesterday").len(), 10);
    let missing = history_day_report_at("2000-01-01", &Ok(None), false, "", "");
    assert_eq!((missing.code, missing.stdout.as_str()), (1, "No data for 2000-01-01\n"));
    let missing_json = history_day_report_at("2000-01-01", &Ok(None), true, "", "");
    assert_eq!(missing_json.stdout, "{\"error\": \"No data for 2000-01-01\"}\n");
    let err = history_day_report_at("2000-01-01", &Err("e".to_string()), false, "", "");
    assert_eq!((err.code, err.stderr.as_str()), (3, "Database error: e\n"));
    let found = history_day_report_at("2026-03-06", &Ok(Some(day("2026-03-06", 1, 1, 1, 1, 1))), true, "", "ISO");
    assert_eq!(found.code, 0);
    assert!(found.stdout.ends_with("\"last_updated\": \"ISO\"}\n"));

    let none = history_days_report(7, &Ok(vec![]), false);
    assert_eq!((none.code, none.stdout.as_str()), (1, "No history data available.\n"));
    let none_json = history_days_report(7, &Ok(vec![]), true);
    assert_eq!(none_json.stdout, "[]\n");
    let list = history_days_report(7, &Ok(vec![day("2026-03-06", 1, 1, 1, 1, 1)]), false);
    assert_eq!(list.code, 0);
    assert!(list.stdout.starts_with("最近 7 天统计\n┌"));
    let derr = history_days_report(7, &Err("gone".to_string()), true);
    assert_eq!((derr.code, derr.stderr.as_str()), (3, "Database error: gone\n"));
}

#[test]
fn format_number_covers_the_whole_range() {
    assert_eq!(format_number(i64::MIN), "-9,223,372,036,854,775,808");
    assert_eq!(format_number(i64::MAX), "9,223,372,036,854,775,807");
    assert_eq!(format_number(-1_234), "-1,234");
}

#[test]
fn render_apps_cuts_wide_names_on_character_boundaries() {
    let rows = vec![app("测试测试测试测试测试", 1, 0, 0, 0)];
    let out = render_apps(&rows, "2026-03-06");
    let line = out.lines().nth(5).unwrap();
    assert!(line.starts_with("│ 测试测试测…"));
    let mixed = vec![app("ab测试测试测试测试", 1, 0, 0, 0)];
    let out2 = render_apps(&mixed, "2026-03-06");
    assert!(out2.lines().nth(5).unwrap().starts_with("│ ab测试测试…"));
}
