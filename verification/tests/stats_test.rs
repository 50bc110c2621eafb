use std::sync::atomic::{AtomicBool, Ordering};

use kim::hooks::{route_event, InputEvent};
use kim::stats::app_tracker::AppCounterMap;
use kim::stats::counters::{CounterSnapshot, GlobalCounters};
use kim::stats::lang_tracker::{ext_to_language, LanguageFocusTracker};

// ── counters ────────────────────────────────────────────────────────────────

#[test]
fn test_fetch_add_accumulates() {
    let c = GlobalCounters::new();
    c.keystrokes.fetch_add(3, Ordering::Relaxed);
    c.keystrokes.fetch_add(5, Ordering::Relaxed);
    assert_eq!(c.keystrokes.load(Ordering::Relaxed), 8);
}

#[test]
fn test_swap_all_returns_accumulated_values() {
    let c = GlobalCounters::new();
    c.keystrokes.fetch_add(10, Ordering::Relaxed);
    c.mouse_clicks.fetch_add(4, Ordering::Relaxed);
    c.characters.fetch_add(7, Ordering::Relaxed);
    c.ctrl_c.fetch_add(2, Ordering::Relaxed);
    c.ctrl_v.fetch_add(1, Ordering::Relaxed);

    let snap = c.swap_all();
    assert_eq!(snap.keystrokes, 10);
    assert_eq!(snap.mouse_clicks, 4);
    assert_eq!(snap.characters, 7);
    assert_eq!(snap.ctrl_c, 2);
    assert_eq!(snap.ctrl_v, 1);
}

#[test]
fn test_swap_all_resets_to_zero() {
    let c = GlobalCounters::new();
    c.keystrokes.fetch_add(5, Ordering::Relaxed);
    let _ = c.swap_all();

    let snap2 = c.swap_all();
    assert_eq!(snap2.keystrokes, 0);
    assert_eq!(snap2.mouse_clicks, 0);
    assert_eq!(snap2.characters, 0);
    assert_eq!(snap2.ctrl_c, 0);
    assert_eq!(snap2.ctrl_v, 0);
}

#[test]
fn test_swap_all_on_empty_counters_returns_zeros() {
    let c = GlobalCounters::new();
    let snap = c.swap_all();
    assert_eq!(snap.keystrokes, 0);
    assert_eq!(snap.mouse_clicks, 0);
    assert_eq!(snap.characters, 0);
    assert_eq!(snap.ctrl_c, 0);
    assert_eq!(snap.ctrl_v, 0);
}

#[test]
fn counter_snapshot_idle_only_when_all_zero() {
    let zero = CounterSnapshot { keystrokes: 0, mouse_clicks: 0, characters: 0, ctrl_c: 0, ctrl_v: 0 };
    assert!(zero.is_idle());
    let one = CounterSnapshot { ctrl_v: 1, ..zero };
    assert!(!one.is_idle());
}

// ── per-app counters ────────────────────────────────────────────────────────

#[test]
fn test_add_keystroke_accumulates() {
    let mut m = AppCounterMap::new();
    m.add_keystroke("code");
    m.add_keystroke("code");
    m.add_keystroke("notepad");
    let snap = m.snapshot_and_clear();
    assert_eq!(snap.get("code").map(|e| e.keystrokes), Some(2));
    assert_eq!(snap.get("notepad").map(|e| e.keystrokes), Some(1));
}

#[test]
fn test_add_character_does_not_touch_keystrokes() {
    let mut m = AppCounterMap::new();
    m.add_character("code");
    m.add_character("code");
    let snap = m.snapshot_and_clear();
    assert_eq!(snap.get("code").map(|e| e.characters), Some(2));
    assert_eq!(
        snap.get("code").map(|e| e.keystrokes),
        Some(0),
        "add_character must NOT touch keystrokes"
    );
}

#[test]
fn test_add_ctrl_c_and_ctrl_v_are_independent() {
    let mut m = AppCounterMap::new();
    m.add_ctrl_c("chrome");
    m.add_ctrl_c("chrome");
    m.add_ctrl_v("chrome");
    let snap = m.snapshot_and_clear();
    let entry = snap.get("chrome").unwrap();
    assert_eq!(entry.ctrl_c, 2);
    assert_eq!(entry.ctrl_v, 1);
    assert_eq!(entry.keystrokes, 0, "add_ctrl_c/v must NOT touch keystrokes");
    assert_eq!(entry.characters, 0);
}

#[test]
fn app_tracker_test_snapshot_and_clear_resets_state() {
    let mut m = AppCounterMap::new();
    m.add_keystroke("code");
    m.add_character("code");
    let snap1 = m.snapshot_and_clear();
    assert_eq!(snap1.get("code").map(|e| e.keystrokes), Some(1));
    // Second snapshot must be empty.
    let snap2 = m.snapshot_and_clear();
    assert!(snap2.is_empty(), "map must be empty after snapshot_and_clear");
}

#[test]
fn test_multi_process_independence() {
    let mut m = AppCounterMap::new();
    m.add_keystroke("chrome");
    m.add_character("chrome");
    m.add_ctrl_c("chrome");
    m.add_ctrl_v("vscode");
    m.add_keystroke("vscode");
    let snap = m.snapshot_and_clear();
    let chrome = snap.get("chrome").unwrap();
    let vscode = snap.get("vscode").unwrap();
    assert_eq!(chrome.keystrokes, 1);
    assert_eq!(chrome.characters, 1);
    assert_eq!(chrome.ctrl_c, 1);
    assert_eq!(chrome.ctrl_v, 0);
    assert_eq!(vscode.keystrokes, 1);
    assert_eq!(vscode.ctrl_v, 1);
    assert_eq!(vscode.ctrl_c, 0);
}

#[test]
fn test_unknown_process_entry_defaults_to_zero() {
    let mut m = AppCounterMap::new();
    m.add_keystroke("existing");
    let snap = m.snapshot_and_clear();
    // "nonexistent" was never added — should simply be absent.
    assert!(snap.get("nonexistent").is_none());
}

#[test]
fn app_map_keeps_first_seen_order_and_entry_defaults() {
    let mut m = AppCounterMap::new();
    m.add_keystroke("b");
    m.add_keystroke("a");
    m.add_keystroke("b");
    assert_eq!(m.len(), 2);
    assert_eq!(m.process_at(0), "b");
    assert_eq!(m.process_at(1), "a");
    assert_eq!(m.entry("zzz").keystrokes, 0);
    assert_eq!(m.entry("b").keystrokes, 2);
}

// ── event routing ───────────────────────────────────────────────────────────

#[test]
fn route_event_counts_keystroke_with_each_keyboard_event() {
    let mut m = AppCounterMap::new();
    route_event(&mut m, "code", InputEvent::Keystroke);
    route_event(&mut m, "code", InputEvent::VisibleChar);
    route_event(&mut m, "code", InputEvent::CtrlCopy);
    route_event(&mut m, "code", InputEvent::CtrlPaste);
    route_event(&mut m, "code", InputEvent::MouseClick);
    let e = m.get("code").unwrap();
    assert_eq!(e.keystrokes, 4);
    assert_eq!(e.characters, 1);
    assert_eq!(e.ctrl_c, 1);
    assert_eq!(e.ctrl_v, 1);
}

#[test]
fn route_event_ignores_unknown_process_and_mouse() {
    let mut m = AppCounterMap::new();
    route_event(&mut m, "", InputEvent::VisibleChar);
    route_event(&mut m, "paint", InputEvent::MouseClick);
    assert!(m.is_empty());
}

// ── language mapping and focus tracking ─────────────────────────────────────

#[test]
fn test_known_extensions_map_correctly() {
    let cases = [
        ("py", "Python"),
        ("pyw", "Python"),
        ("js", "JavaScript"),
        ("mjs", "JavaScript"),
        ("ts", "TypeScript"),
        ("tsx", "TSX"),
        ("jsx", "JSX"),
        ("java", "Java"),
        ("go", "Go"),
        ("rs", "Rust"),
        ("c", "C"),
        ("h", "C"),
        ("cpp", "C++"),
        ("cc", "C++"),
        ("hpp", "C++"),
        ("cs", "C#"),
        ("rb", "Ruby"),
        ("php", "PHP"),
        ("swift", "Swift"),
        ("kt", "Kotlin"),
        ("kts", "Kotlin"),
        ("html", "HTML"),
        ("htm", "HTML"),
        ("css", "CSS"),
        ("scss", "CSS"),
        ("sql", "SQL"),
        ("sh", "Shell"),
        ("bash", "Shell"),
        ("vue", "Vue"),
    ];
    for (ext, expected) in cases {
        assert_eq!(ext_to_language(ext), expected, "ext={ext} expected={expected}");
    }
}

#[test]
fn test_unknown_extension_returns_other() {
    assert_eq!(ext_to_language("xyz"), "Other");
    assert_eq!(ext_to_language(""), "Other");
    assert_eq!(ext_to_language("docx"), "Other");
}

#[test]
fn remaining_extensions_map_correctly() {
    for (ext, expected) in [
        ("cjs", "JavaScript"),
        ("mts", "TypeScript"),
        ("cts", "TypeScript"),
        ("cxx", "C++"),
        ("hxx", "C++"),
        ("rake", "Ruby"),
        ("sass", "CSS"),
        ("less", "CSS"),
        ("zsh", "Shell"),
        ("fish", "Shell"),
        ("PY", "Other"),
    ] {
        assert_eq!(ext_to_language(ext), expected, "ext={ext}");
    }
}

#[test]
fn test_less_than_5_ticks_discarded() {
    let mut t = LanguageFocusTracker::new();
    t.on_window_change(Some("Python".to_string()));
    for _ in 0..4 {
        t.tick();
    }
    // Switch window before reaching stability threshold
    t.on_window_change(None);
    let snap = t.snapshot_and_clear();
    assert!(
        !snap.focus_seconds.contains_key("Python"),
        "< 5 ticks must not appear in accumulated"
    );
}

#[test]
fn test_exactly_5_ticks_counted() {
    let mut t = LanguageFocusTracker::new();
    t.on_window_change(Some("Rust".to_string()));
    for _ in 0..5 {
        t.tick();
    }
    let snap = t.snapshot_and_clear();
    assert_eq!(
        snap.focus_seconds.get("Rust"),
        Some(1),
        "exactly 5 ticks → 1 second accumulated"
    );
}

#[test]
fn test_more_than_5_ticks_accumulated_correctly() {
    let mut t = LanguageFocusTracker::new();
    t.on_window_change(Some("TypeScript".to_string()));
    for _ in 0..10 {
        t.tick();
    }
    let snap = t.snapshot_and_clear();
    // ticks 5,6,7,8,9,10 → 6 seconds
    assert_eq!(snap.focus_seconds.get("TypeScript"), Some(6));
}

#[test]
fn test_window_switch_stops_old_session() {
    let mut t = LanguageFocusTracker::new();
    t.on_window_change(Some("Python".to_string()));
    for _ in 0..7 {
        t.tick();
    }
    // Switch to TypeScript
    t.on_window_change(Some("TypeScript".to_string()));
    for _ in 0..6 {
        t.tick();
    }
    let snap = t.snapshot_and_clear();
    // Python: ticks 5,6,7 → 3 seconds
    assert_eq!(snap.focus_seconds.get("Python"), Some(3));
    // TypeScript: ticks 5,6 → 2 seconds
    assert_eq!(snap.focus_seconds.get("TypeScript"), Some(2));
}

#[test]
fn test_accumulated_seconds_sum_across_sessions() {
    let mut t = LanguageFocusTracker::new();
    // First Python session: 6 ticks → 2 seconds
    t.on_window_change(Some("Python".to_string()));
    for _ in 0..6 {
        t.tick();
    }
    // TypeScript: 5 ticks → 1 second
    t.on_window_change(Some("TypeScript".to_string()));
    for _ in 0..5 {
        t.tick();
    }
    // Second Python session: 7 ticks → 3 seconds
    t.on_window_change(Some("Python".to_string()));
    for _ in 0..7 {
        t.tick();
    }
    let snap = t.snapshot_and_clear();
    // Python total: 2 + 3 = 5 seconds
    assert_eq!(snap.focus_seconds.get("Python"), Some(5));
    assert_eq!(snap.focus_seconds.get("TypeScript"), Some(1));
}

#[test]
fn lang_tracker_test_snapshot_and_clear_resets_state() {
    let mut t = LanguageFocusTracker::new();
    t.on_window_change(Some("Go".to_string()));
    for _ in 0..6 {
        t.tick();
    }
    let snap1 = t.snapshot_and_clear();
    assert_eq!(snap1.focus_seconds.get("Go"), Some(2));
    // After clear, no more accumulated seconds (session is ongoing but cleared)
    let snap2 = t.snapshot_and_clear();
    assert!(snap2.focus_seconds.is_empty());
}

#[test]
fn test_add_character_accumulates_per_language() {
    let mut t = LanguageFocusTracker::new();
    t.add_character("Python");
    t.add_character("Python");
    t.add_character("Rust");
    let snap = t.snapshot_and_clear();
    assert_eq!(snap.char_counts.get("Python"), Some(2));
    assert_eq!(snap.char_counts.get("Rust"), Some(1));
}

#[test]
fn test_add_character_skips_other_and_empty() {
    let mut t = LanguageFocusTracker::new();
    t.add_character("Other");
    t.add_character("");
    let snap = t.snapshot_and_clear();
    assert!(snap.char_counts.is_empty());
}

#[test]
fn test_ongoing_session_continues_after_snapshot() {
    let mut t = LanguageFocusTracker::new();
    t.on_window_change(Some("Java".to_string()));
    for _ in 0..6 {
        t.tick(); // 2 seconds: ticks 5,6
    }
    let snap1 = t.snapshot_and_clear();
    assert_eq!(snap1.focus_seconds.get("Java"), Some(2));
    // Session continues — focus_seconds was cleared, ticks are still tracked
    for _ in 0..3 {
        t.tick(); // 3 more ticks (ticks 7,8,9) → 3 seconds
    }
    let snap2 = t.snapshot_and_clear();
    assert_eq!(snap2.focus_seconds.get("Java"), Some(3));
}

#[test]
fn ticks_without_session_or_language_commit_nothing() {
    let mut t = LanguageFocusTracker::default();
    for _ in 0..10 {
        t.tick();
    }
    t.on_window_change(None);
    for _ in 0..10 {
        t.tick();
    }
    let snap = t.snapshot_and_clear();
    assert!(snap.focus_seconds.is_empty());
    assert!(snap.char_counts.is_empty());
}

#[test]
fn tracker_bounds_checks_allow_ordinary_use() {
    let mut t = LanguageFocusTracker::new();
    assert!(t.tick_fits());
    assert!(t.character_fits("Rust"));
    t.on_window_change(Some("Rust".to_string()));
    assert!(t.tick_fits());
}

// ── password-field flag and keyboard hook (std atomics only) ───────────────

#[test]
fn test_is_password_field_default_false() {
    // The static may have been modified by other tests; create a local one.
    let flag = AtomicBool::new(false);
    assert!(!flag.load(Ordering::Relaxed));
}

#[test]
fn test_is_password_field_set_and_clear() {
    let flag = AtomicBool::new(false);
    flag.store(true, Ordering::Relaxed);
    assert!(flag.load(Ordering::Relaxed));
    flag.store(false, Ordering::Relaxed);
    assert!(!flag.load(Ordering::Relaxed));
}

#[test]
fn test_vk_all_counted_in_phase3() {
    // The hook itself requires a running Win32 message loop; every key-down
    // is routed as at least one keystroke.
    let mut m = AppCounterMap::new();
    route_event(&mut m, "code", InputEvent::Keystroke);
    assert_eq!(m.get("code").map(|e| e.keystrokes), Some(1));
}
