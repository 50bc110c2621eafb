use kim::cli::clock::shown_time;
use kim::cli::history::{check_history_date, history_day_report_at, resolve_history_date_at, valid_date};
use kim::cli::reset::is_yes;
use kim::state::process_name_of_image;
use kim::stats::lang_tracker::{ext_from_title, ext_to_language};

#[test]
fn valid_dates_follow_the_calendar() {
    assert!(valid_date("2026-03-06"));
    assert!(valid_date("2024-02-29"));
    assert!(valid_date("2000-02-29"));
    assert!(!valid_date("1900-02-29"));
    assert!(!valid_date("2026-02-29"));
    assert!(!valid_date("2026-13-45"));
    assert!(!valid_date("2026-04-31"));
    assert!(!valid_date("2026-00-10"));
    assert!(!valid_date("2026-3-6"));
    assert!(!valid_date("foo"));
    assert!(!valid_date("yesterday"));
}

#[test]
fn invalid_history_date_exits_with_code_2() {
    let out = check_history_date("foo").unwrap();
    assert_eq!(out.code, 2);
    assert_eq!(out.stdout, "");
    assert_eq!(out.stderr, "Invalid date: foo (expected YYYY-MM-DD, yesterday or last-week)\n");
    assert!(check_history_date("2026-03-06").is_none());
    let report = history_day_report_at("2026-13-45", &Ok(None), false, "", "");
    assert_eq!(report.code, 2);
    assert_eq!(report.stdout, "");
}

#[test]
fn keywords_resolve_against_today() {
    assert_eq!(resolve_history_date_at("yesterday", "2026-03-01"), "2026-02-28");
    assert_eq!(resolve_history_date_at("last-week", "2026-03-06"), "2026-02-27");
    assert_eq!(resolve_history_date_at("yesterday", "2024-03-01"), "2024-02-29");
    assert_eq!(resolve_history_date_at("2025-12-31", "2026-03-06"), "2025-12-31");
    assert_eq!(resolve_history_date_at("foo", "2026-03-06"), "foo");
    assert_eq!(resolve_history_date_at("yesterday", "not a date"), "yesterday");
}

#[test]
fn missing_times_show_as_na() {
    assert_eq!(shown_time(None), "N/A");
    assert_eq!(shown_time(Some("14:32:05".to_string())), "14:32:05");
}

#[test]
fn yes_answers() {
    assert!(is_yes("y"));
    assert!(is_yes("yes"));
    assert!(!is_yes("Y"));
    assert!(!is_yes("no"));
    assert!(!is_yes(""));
}

#[test]
fn process_names_are_lower_case_stems() {
    assert_eq!(process_name_of_image("C:\\Program Files\\Microsoft VS Code\\Code.exe"), "code");
    assert_eq!(process_name_of_image("C:/tools/WindowsTerminal.exe"), "windowsterminal");
    assert_eq!(process_name_of_image("C:\\apps\\my.app.EXE"), "my.app");
    assert_eq!(process_name_of_image("C:\\apps\\noext"), "noext");
    assert_eq!(process_name_of_image("C:\\apps\\.hidden"), ".hidden");
    assert_eq!(process_name_of_image("chrome.exe"), "chrome");
}

#[test]
fn titles_give_extensions_and_languages() {
    assert_eq!(ext_from_title("main.rs - Visual Studio Code").as_deref(), Some("rs"));
    assert_eq!(ext_from_title("App.TSX - Editor").as_deref(), Some("tsx"));
    assert_eq!(ext_from_title("C:\\src\\Main.Java - Notepad").as_deref(), Some("java"));
    assert_eq!(ext_from_title("Untitled - Notepad"), None);
    assert_eq!(ext_from_title("script.py").as_deref(), Some("py"));
    assert_eq!(ext_from_title(".bashrc - vim"), None);
    assert_eq!(ext_to_language(&ext_from_title("main.rs - Visual Studio Code").unwrap()), "Rust");
}

#[test]
fn todays_date_is_a_full_date() {
    let d = kim::db::writer::current_date();
    assert!(d.len() >= 10);
    assert!(valid_date(&d));
    let t = kim::cli::target_date(None);
    assert!(valid_date(&t));
    assert_eq!(kim::cli::target_date(Some("2026-03-06")), "2026-03-06");
}
