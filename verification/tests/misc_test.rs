use kim::cli::autostart::{
    autostart_value, bytes_to_string, decode_utf16_lossy, disable_report, enable_report, s2w, status_report,
    words_to_le_bytes,
};
use kim::cli::daemon::{
    exit_code_means_alive, filetime_to_unix_secs, format_uptime, start_failure_report, start_plan,
    start_report, status_report as daemon_status_report, stop_plan, stop_report, stop_step, StartFailure,
    StartPlan, StopPlan, StopStep,
};
use kim::cli::reset::{reset_cancelled, reset_confirmed, reset_prompt, reset_report, reset_scope, reset_unreadable};
use kim::db::writer::{
    app_rows_to_flush, lang_rows_to_flush, plan_final_flush, plan_periodic_flush, writer_step, WriterAction,
};
use kim::state::{parse_pid_contents, WindowInfo};
use kim::stats::app_tracker::AppCounterMap;
use kim::stats::counters::CounterSnapshot;
use kim::stats::lang_tracker::LanguageFocusTracker;
use kim::text::trim_text;

// ── autostart value and UTF-16 round trip ──────────────────────────────────

#[test]
fn autostart_value_quotes_path() {
    assert_eq!(
        autostart_value(r"C:\Users\test\AppData\Local\Programs\kim\kimd.exe"),
        r#""C:\Users\test\AppData\Local\Programs\kim\kimd.exe" --autostart"#
    );
}

#[test]
fn s2w_appends_nul_and_encodes_surrogates() {
    assert_eq!(s2w("kim"), vec![0x6b, 0x69, 0x6d, 0]);
    assert_eq!(s2w(""), vec![0]);
    assert_eq!(s2w("😀"), vec![0xD83D, 0xDE00, 0]);
    assert_eq!(s2w("日"), vec![0x65E5, 0]);
}

#[test]
fn registry_bytes_round_trip() {
    for s in [r#""C:\Program Files\kim\kimd.exe" --autostart"#, "second", "日本語 😀", ""] {
        let bytes = words_to_le_bytes(&s2w(s));
        assert_eq!(bytes_to_string(&bytes), s);
    }
}

#[test]
fn bytes_to_string_stops_at_nul_and_replaces_lone_surrogates() {
    assert_eq!(bytes_to_string(&[0x61, 0, 0x62, 0, 0, 0, 0x63, 0]), "ab");
    assert_eq!(bytes_to_string(&[0x61, 0, 0x62]), "a");
    assert_eq!(bytes_to_string(&[0x00, 0xD8, 0x61, 0x00]), "\u{FFFD}a");
    assert_eq!(decode_utf16_lossy(&[0xDC00, 0x3D, 0xD83D, 0xDE00]), "\u{FFFD}=😀");
}

#[test]
fn autostart_reports() {
    let ok = enable_report(&Ok(()));
    assert_eq!((ok.code, ok.stdout.as_str()), (0, "Autostart enabled. kim will start automatically on next login.\n"));
    let bad = enable_report(&Err("denied".to_string()));
    assert_eq!((bad.code, bad.stderr.as_str()), (1, "Failed to enable autostart: denied\n"));
    let off = disable_report(&Ok(()));
    assert_eq!((off.code, off.stdout.as_str()), (0, "Autostart disabled.\n"));
    let off_bad = disable_report(&Err("x".to_string()));
    assert_eq!((off_bad.code, off_bad.stderr.as_str()), (1, "Failed to disable autostart: x\n"));
    let on = status_report(&Ok(Some("p".to_string())));
    assert_eq!((on.code, on.stdout.as_str()), (0, "Autostart: enabled\nPath: p\n"));
    let disabled = status_report(&Ok(None));
    assert_eq!((disabled.code, disabled.stdout.as_str()), (1, "Autostart: disabled\n"));
    let q = status_report(&Err("y".to_string()));
    assert_eq!((q.code, q.stderr.as_str()), (1, "Failed to query autostart: y\n"));
}

// ── daemon lifecycle ────────────────────────────────────────────────────────

#[test]
fn format_uptime_pads_fields() {
    assert_eq!(format_uptime(0), "00:00:00");
    assert_eq!(format_uptime(332), "00:05:32");
    assert_eq!(format_uptime(12_258), "03:24:18");
    assert_eq!(format_uptime(360_000), "100:00:00");
}

#[test]
fn filetime_conversion() {
    assert_eq!(filetime_to_unix_secs(0, 0), None);
    // 2009-02-13T23:31:30Z = 1234567890 s = 0x01C98E4C_E0E2F400 (FILETIME)
    let ft: u64 = 116_444_736_000_000_000 + 1_234_567_890 * 10_000_000;
    assert_eq!(filetime_to_unix_secs((ft >> 32) as u32, ft as u32), Some(1_234_567_890));
    assert!(exit_code_means_alive(259));
    assert!(!exit_code_means_alive(0));
}

#[test]
fn status_start_stop_decisions() {
    let stopped = daemon_status_report(None, false, None, None);
    assert_eq!((stopped.code, stopped.stdout.as_str()), (1, "stopped\n"));
    let dead = daemon_status_report(Some(42), false, Some(10), Some(5));
    assert_eq!(dead.stdout, "stopped\n");
    let running = daemon_status_report(Some(12345), true, Some(1_000_332), Some(1_000_000));
    assert_eq!((running.code, running.stdout.as_str()), (0, "running  PID: 12345  uptime: 00:05:32\n"));
    let unknown = daemon_status_report(Some(7), true, None, Some(1));
    assert_eq!(unknown.stdout, "running  PID: 7  uptime: unknown\n");

    match start_plan(Some(99), true) {
        StartPlan::AlreadyRunning(out) => {
            assert_eq!((out.code, out.stdout.as_str()), (1, "kim is already running (PID: 99)\n"))
        }
        StartPlan::Launch { .. } => panic!("expected AlreadyRunning"),
    }
    assert!(matches!(start_plan(Some(99), false), StartPlan::Launch { remove_stale: true }));
    assert!(matches!(start_plan(None, false), StartPlan::Launch { remove_stale: false }));
    let started = start_report(Some(12345));
    assert_eq!((started.code, started.stdout.as_str()), (0, "kim started (PID: 12345)\n"));
    let late = start_report(None);
    assert_eq!((late.code, late.stderr.as_str()), (2, "kimd started but PID file not created within 2 seconds.\n"));
    let missing = start_failure_report(&StartFailure::DaemonMissing("C:\\kimd.exe".to_string()));
    assert_eq!((missing.code, missing.stderr.as_str()), (2, "kimd.exe not found at: C:\\kimd.exe\n"));
    let spawn = start_failure_report(&StartFailure::SpawnFailed("no".to_string()));
    assert_eq!(spawn.stderr, "Failed to start kimd.exe: no\n");
    let own = start_failure_report(&StartFailure::NoOwnPath("?".to_string()));
    assert_eq!(own.stderr, "Cannot determine kimd.exe path: ?\n");

    assert!(matches!(stop_plan(&Ok(Some(5)), true), StopPlan::Signal(5)));
    match stop_plan(&Ok(Some(5)), false) {
        StopPlan::NotRunning { out, remove_pid_file } => {
            assert!(remove_pid_file);
            assert_eq!((out.code, out.stdout.as_str()), (1, "kim is not running\n"));
        }
        StopPlan::Signal(_) => panic!("expected NotRunning"),
    }
    match stop_plan(&Err("perm".to_string()), false) {
        StopPlan::NotRunning { out, remove_pid_file } => {
            assert!(!remove_pid_file);
            assert_eq!(out.stderr, "Cannot read PID file: perm\n");
        }
        StopPlan::Signal(_) => panic!("expected NotRunning"),
    }
    assert!(matches!(stop_step(false, true), StopStep::Exited));
    assert!(matches!(stop_step(true, true), StopStep::ForceTerminate));
    assert!(matches!(stop_step(true, false), StopStep::Wait));
    assert_eq!(stop_report(true).stdout, "kim force-stopped\n");
    assert_eq!(stop_report(false).stdout, "kim stopped\n");
}

// ── reset ────────────────────────────────────────────────────────────────────

#[test]
fn reset_texts_and_confirmation() {
    assert_eq!(reset_scope(Some("2026-03-09")), "日期 2026-03-09 的统计数据");
    assert_eq!(reset_scope(None), "所有统计数据");
    assert_eq!(reset_prompt("所有统计数据"), "确定要清空 所有统计数据 吗？此操作不可撤销。[y/N] ");
    assert!(reset_confirmed("y\n"));
    assert!(reset_confirmed("  YES \r\n"));
    assert!(!reset_confirmed("n\n"));
    assert!(!reset_confirmed(""));
    assert!(!reset_confirmed("yess"));
    let done = reset_report("所有统计数据", &Ok(4));
    assert_eq!((done.code, done.stdout.as_str()), (0, "已清空 所有统计数据（共删除 4 条记录）。\n"));
    let failed = reset_report("x", &Err("busy".to_string()));
    assert_eq!((failed.code, failed.stderr.as_str()), (2, "数据库错误: busy\n"));
    assert_eq!(reset_cancelled().stdout, "已取消。\n");
    assert_eq!((reset_unreadable().code, reset_unreadable().stderr), (2, "无法读取输入\n".to_string()));
}

// ── PID file and trimming ───────────────────────────────────────────────────

#[test]
fn pid_contents_parse_like_std() {
    assert_eq!(parse_pid_contents("12345"), Some(12345));
    assert_eq!(parse_pid_contents(" 42\r\n"), Some(42));
    assert_eq!(parse_pid_contents("+7"), Some(7));
    assert_eq!(parse_pid_contents("4294967295"), Some(u32::MAX));
    assert_eq!(parse_pid_contents("4294967296"), None);
    assert_eq!(parse_pid_contents("-1"), None);
    assert_eq!(parse_pid_contents(""), None);
    assert_eq!(parse_pid_contents("+"), None);
    assert_eq!(parse_pid_contents("12 34"), None);
    for s in ["0", "007", "99999999999", "abc", " 1", "\u{3000}8\u{3000}"] {
        assert_eq!(parse_pid_contents(s), s.trim().parse::<u32>().ok(), "input {s:?}");
    }
}

#[test]
fn trim_matches_std() {
    for s in ["", "   ", " a b ", "\t\nx\u{2029}", "\u{00A0}y\u{205F}", "z"] {
        assert_eq!(trim_text(s), s.trim());
    }
}

#[test]
fn window_info_defaults_empty() {
    let w = WindowInfo::default();
    assert!(w.process_name.is_empty() && w.window_title.is_empty());
    assert!(w.active_ext.is_none() && w.language.is_none());
}

// ── writer planning ─────────────────────────────────────────────────────────

fn snap(ks: u64, mc: u64) -> CounterSnapshot {
    CounterSnapshot { keystrokes: ks, mouse_clicks: mc, characters: 0, ctrl_c: 0, ctrl_v: 0 }
}

#[test]
fn writer_step_decisions() {
    assert!(matches!(writer_step(true, 0), WriterAction::FinalFlush));
    assert!(matches!(writer_step(true, 99), WriterAction::FinalFlush));
    assert!(matches!(writer_step(false, 30), WriterAction::PeriodicFlush));
    assert!(matches!(writer_step(false, 29), WriterAction::Wait));
}

#[test]
fn app_rows_skip_all_zero_entries() {
    let mut m = AppCounterMap::new();
    m.add_keystroke("code");
    m.add_ctrl_v("notepad");
    let rows = app_rows_to_flush(&m);
    assert_eq!(rows.len(), 2);
    assert_eq!(rows[0].process_name, "code");
    assert_eq!(rows[1].entry.ctrl_v, 1);
    assert!(app_rows_to_flush(&AppCounterMap::new()).is_empty());
}

#[test]
fn lang_rows_merge_focus_and_characters() {
    let mut t = LanguageFocusTracker::new();
    t.on_window_change(Some("Rust".to_string()));
    for _ in 0..6 {
        t.tick();
    }
    t.add_character("Rust");
    t.add_character("Python");
    let s = t.snapshot_and_clear();
    let rows = lang_rows_to_flush(&s);
    assert_eq!(rows.len(), 2);
    assert_eq!((rows[0].language.as_str(), rows[0].characters, rows[0].focus_seconds), ("Rust", 1, 2));
    assert_eq!((rows[1].language.as_str(), rows[1].characters, rows[1].focus_seconds), ("Python", 1, 0));
}

#[test]
fn periodic_flush_skips_when_nothing_happened() {
    let mut apps = AppCounterMap::new();
    let mut t = LanguageFocusTracker::new();
    let langs = t.snapshot_and_clear();
    assert!(plan_periodic_flush(snap(0, 0), &apps, &langs).is_none());
    let p = plan_periodic_flush(snap(200, 100), &apps, &langs).unwrap();
    assert_eq!(p.daily.keystrokes, 200);
    assert!(p.cleanup);
    apps.add_keystroke("code");
    let p2 = plan_periodic_flush(snap(0, 0), &apps, &langs).unwrap();
    assert_eq!(p2.app_rows.len(), 1);
    let f = plan_final_flush(snap(0, 0), &AppCounterMap::new(), &langs);
    assert!(!f.cleanup);
    assert_eq!(f.daily.keystrokes, 0);
}

#[test]
fn app_rows_name_each_process_once() {
    let mut m = AppCounterMap::new();
    m.add_keystroke("code");
    m.add_keystroke("notepad");
    m.add_keystroke("code");
    m.add_character("code");
    let rows = app_rows_to_flush(&m);
    assert_eq!(rows.len(), 2);
    assert_eq!(rows[0].process_name, "code");
    assert_eq!((rows[0].entry.keystrokes, rows[0].entry.characters), (2, 1));
    assert_eq!(rows[1].process_name, "notepad");
    assert_eq!(rows[1].entry.keystrokes, 1);
}
