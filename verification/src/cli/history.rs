//! `kim history` — historical input statistics.

use vstd::prelude::*;

use crate::cli::{align_left, align_right, format_number, label_cell, push_decimal, push_int, CommandOutput};
use crate::cli::table::{row_line, rule_line};
use crate::cli::today::DailyStats;

verus! {

pub const DATE_COL: usize = 12;
pub const KS_COL: usize = 10;
pub const MC_COL: usize = 8;
pub const CH_COL: usize = 8;
pub const CC_COL: usize = 7;
pub const CV_COL: usize = 7;

/// The column widths in order.
pub open spec fn days_widths() -> Seq<usize> {
    seq![DATE_COL, KS_COL, MC_COL, CH_COL, CC_COL, CV_COL]
}

/// The date cell: `" YYYY-MM-DD "`.
pub open spec fn date_cell_text(date: Seq<char>) -> Seq<char> {
    seq![' '] + crate::cli::aligned_left(date, 10) + seq![' ']
}

/// A numeric cell: one space on each side of the value right-aligned in
/// `col - 2` characters.
pub open spec fn num_cell_text(v: i64, col: nat) -> Seq<char> {
    seq![' '] + crate::cli::aligned_right(
        crate::cli::number_text(v as int),
        if col >= 2 { (col - 2) as nat } else { 0 },
    ) + seq![' ']
}

/// Format a date cell to exactly `DATE_COL` display columns: `" YYYY-MM-DD "`.
pub fn date_cell(date: &str) -> (r: String)
    ensures
        r@ == date_cell_text(date@),
{
    let mut r = String::new();
    r.append(" ");
    r.append(align_left(date, 10).as_str());
    r.append(" ");
    proof { reveal_strlit(" "); }
    assert(r@ =~= date_cell_text(date@));
    r
}

/// Format a numeric cell right-aligned within `col` display columns.
pub fn num_cell(val: i64, col: usize) -> (r: String)
    ensures
        r@ == num_cell_text(val, col as nat),
{
    let s = format_number(val);
    let w = if col >= 2 { col - 2 } else { 0 };
    let mut r = String::new();
    r.append(" ");
    r.append(align_right(s.as_str(), w).as_str());
    r.append(" ");
    proof { reveal_strlit(" "); }
    assert(r@ =~= num_cell_text(val, col as nat));
    r
}

/// One line of the multi-day table.
pub open spec fn day_line_text(d: DailyStats) -> Seq<char> {
    crate::cli::table::row_text(
        seq![
            date_cell_text(d.date@),
            num_cell_text(d.keystrokes, KS_COL as nat),
            num_cell_text(d.mouse_clicks, MC_COL as nat),
            num_cell_text(d.characters, CH_COL as nat),
            num_cell_text(d.ctrl_c, CC_COL as nat),
            num_cell_text(d.ctrl_v, CV_COL as nat),
        ],
    )
}

/// The lines for all days, in order.
pub open spec fn day_lines_text(data: Seq<DailyStats>) -> Seq<char>
    decreases data.len(),
{
    if data.len() == 0 {
        Seq::empty()
    } else {
        day_lines_text(data.drop_last()) + day_line_text(data.last())
    }
}

/// The heading line of the multi-day table.
pub open spec fn days_heading_text() -> Seq<char> {
    crate::cli::table::row_text(
        seq![
            crate::cli::padded_right(" 日期"@, DATE_COL as nat),
            crate::cli::padded_right(" 键盘"@, KS_COL as nat),
            crate::cli::padded_right(" 鼠标"@, MC_COL as nat),
            crate::cli::padded_right(" 字符"@, CH_COL as nat),
            crate::cli::padded_right(" 复制"@, CC_COL as nat),
            crate::cli::padded_right(" 粘贴"@, CV_COL as nat),
        ],
    )
}

/// The full multi-day history table under the line `label`.
pub open spec fn days_list_text(label: Seq<char>, data: Seq<DailyStats>) -> Seq<char> {
    label + "\n"@
    + crate::cli::table::rule_text("┌"@, "┬"@, "┐"@, days_widths())
    + days_heading_text()
    + crate::cli::table::rule_text("├"@, "┼"@, "┤"@, days_widths())
    + day_lines_text(data)
    + crate::cli::table::rule_text("└"@, "┴"@, "┘"@, days_widths())
}

fn days_heading() -> (r: String)
    ensures
        r@ == days_heading_text(),
{
    proof {
        reveal_strlit(" 日期");
        reveal_strlit(" 键盘");
        reveal_strlit(" 鼠标");
        reveal_strlit(" 字符");
        reveal_strlit(" 复制");
        reveal_strlit(" 粘贴");
    }
    let mut heads: Vec<String> = Vec::new();
    heads.push(label_cell(" 日期", DATE_COL));
    heads.push(label_cell(" 键盘", KS_COL));
    heads.push(label_cell(" 鼠标", MC_COL));
    heads.push(label_cell(" 字符", CH_COL));
    heads.push(label_cell(" 复制", CC_COL));
    heads.push(label_cell(" 粘贴", CV_COL));
    assert(crate::cli::table::views(heads@) =~= seq![
        crate::cli::padded_right(" 日期"@, DATE_COL as nat),
        crate::cli::padded_right(" 键盘"@, KS_COL as nat),
        crate::cli::padded_right(" 鼠标"@, MC_COL as nat),
        crate::cli::padded_right(" 字符"@, CH_COL as nat),
        crate::cli::padded_right(" 复制"@, CC_COL as nat),
        crate::cli::padded_right(" 粘贴"@, CV_COL as nat),
    ]);
    row_line(&heads)
}

fn day_line(d: &DailyStats) -> (r: String)
    ensures
        r@ == day_line_text(*d),
{
    let mut cells: Vec<String> = Vec::new();
    cells.push(date_cell(d.date.as_str()));
    cells.push(num_cell(d.keystrokes, KS_COL));
    cells.push(num_cell(d.mouse_clicks, MC_COL));
    cells.push(num_cell(d.characters, CH_COL));
    cells.push(num_cell(d.ctrl_c, CC_COL));
    cells.push(num_cell(d.ctrl_v, CV_COL));
    assert(crate::cli::table::views(cells@) =~= seq![
        date_cell_text(d.date@),
        num_cell_text(d.keystrokes, KS_COL as nat),
        num_cell_text(d.mouse_clicks, MC_COL as nat),
        num_cell_text(d.characters, CH_COL as nat),
        num_cell_text(d.ctrl_c, CC_COL as nat),
        num_cell_text(d.ctrl_v, CV_COL as nat),
    ]);
    row_line(&cells)
}

/// Render a multi-day history table under the line `label`.
pub fn render_days_list(label: &str, data: &[DailyStats]) -> (r: String)
    ensures
        r@ == days_list_text(label@, data@),
{
    let widths: [usize; 6] = [DATE_COL, KS_COL, MC_COL, CH_COL, CC_COL, CV_COL];
    assert(widths@ =~= days_widths());
    let mut out = String::new();
    out.append(label);
    out.append("\n");
    out.append(rule_line("┌", "┬", "┐", &widths).as_str());
    out.append(days_heading().as_str());
    out.append(rule_line("├", "┼", "┤", &widths).as_str());
    let ghost head = out@;
    let mut i: usize = 0;
    while i < data.len()
        invariant
            i <= data@.len(),
            out@ == head + day_lines_text(data@.take(i as int)),
        decreases data@.len() - i,
    {
        assert(data@.take(i + 1).drop_last() =~= data@.take(i as int));
        out.append(day_line(&data[i]).as_str());
        i = i + 1;
        assert(out@ =~= head + day_lines_text(data@.take(i as int)));
    }
    assert(data@.take(data@.len() as int) =~= data@);
    out.append(rule_line("└", "┴", "┘", &widths).as_str());
    assert(out@ =~= days_list_text(label@, data@));
    out
}

/// The SQLite date modifier selecting the last `days` days, today included.
pub open spec fn days_offset_text(days: u32) -> Seq<char> {
    "-"@ + crate::cli::decimal((if days >= 1 { days - 1 } else { 0 }) as nat) + " days"@
}

/// The SQLite date modifier for the last `days` days (`"-6 days"` for 7).
pub fn days_offset(days: u32) -> (r: String)
    ensures
        r@ == days_offset_text(days),
{
    let mut r = String::new();
    r.append("-");
    push_decimal(&mut r, days.saturating_sub(1) as u64);
    r.append(" days");
    r
}

/// The JSON object for one day, with `updated` as the last-update time.
pub open spec fn day_json_text(d: DailyStats, updated: Seq<char>) -> Seq<char> {
    "{\"date\": \""@ + d.date@ + "\", \"keystrokes\": "@ + crate::cli::int_text(d.keystrokes as int)
        + ", \"mouse_clicks\": "@ + crate::cli::int_text(d.mouse_clicks as int)
        + ", \"characters\": "@ + crate::cli::int_text(d.characters as int)
        + ", \"ctrl_c\": "@ + crate::cli::int_text(d.ctrl_c as int)
        + ", \"ctrl_v\": "@ + crate::cli::int_text(d.ctrl_v as int)
        + ", \"last_updated\": \""@ + updated + "\"}"@
}

/// The JSON object for one day, with `updated` as the last-update time.
pub fn render_day_json_at(d: &DailyStats, updated: &str) -> (r: String)
    ensures
        r@ == day_json_text(*d, updated@),
{
    let mut r = String::new();
    r.append("{\"date\": \"");
    r.append(d.date.as_str());
    r.append("\", \"keystrokes\": ");
    push_int(&mut r, d.keystrokes);
    r.append(", \"mouse_clicks\": ");
    push_int(&mut r, d.mouse_clicks);
    r.append(", \"characters\": ");
    push_int(&mut r, d.characters);
    r.append(", \"ctrl_c\": ");
    push_int(&mut r, d.ctrl_c);
    r.append(", \"ctrl_v\": ");
    push_int(&mut r, d.ctrl_v);
    r.append(", \"last_updated\": \"");
    r.append(updated);
    r.append("\"}");
    assert(r@ =~= day_json_text(*d, updated@));
    r
}

/// The JSON object for one day; the last-update time is shown in local time.
pub fn render_today_json(d: &DailyStats) -> (r: String)
    ensures
        exists|updated: Seq<char>| crate::cli::clock::date_time_text(updated) && r@ == day_json_text(*d, updated),
{
    let updated = crate::cli::clock::format_unix_iso(d.updated_at);
    render_day_json_at(d, updated.as_str())
}

/// The indented JSON objects of `rows`, joined by `",\n"`.
pub open spec fn days_json_items(rows: Seq<DailyStats>, times: Seq<Seq<char>>) -> Seq<char>
    decreases rows.len(),
{
    if rows.len() == 0 {
        Seq::empty()
    } else if rows.len() == 1 {
        "  "@ + day_json_text(rows[0], times[0])
    } else {
        days_json_items(rows.drop_last(), times) + ",\n"@ + "  "@ + day_json_text(rows.last(), times[rows.len() - 1])
    }
}

/// A JSON array of days, `times[i]` being the last-update time of `rows[i]`.
pub open spec fn days_json_text(rows: Seq<DailyStats>, times: Seq<Seq<char>>) -> Seq<char> {
    "[\n"@ + days_json_items(rows, times) + "\n]"@
}

/// Serialize multiple days to a JSON array, `times[i]` being the
/// last-update time shown for `rows[i]`.
pub fn render_days_json_at(rows: &[DailyStats], times: &Vec<String>) -> (r: String)
    requires
        times@.len() == rows@.len(),
    ensures
        r@ == days_json_text(rows@, times@.map_values(|t: String| t@)),
{
    let ghost tv = times@.map_values(|t: String| t@);
    let mut items = String::new();
    let mut i: usize = 0;
    while i < rows.len()
        invariant
            i <= rows@.len(),
            times@.len() == rows@.len(),
            tv == times@.map_values(|t: String| t@),
            items@ == days_json_items(rows@.take(i as int), tv),
        decreases rows@.len() - i,
    {
        assert(rows@.take(i + 1).drop_last() =~= rows@.take(i as int));
        if i > 0 {
            items.append(",\n");
        }
        items.append("  ");
        items.append(render_day_json_at(&rows[i], times[i].as_str()).as_str());
        i = i + 1;
        assert(items@ =~= days_json_items(rows@.take(i as int), tv));
    }
    assert(rows@.take(rows@.len() as int) =~= rows@);
    let mut r = String::new();
    r.append("[\n");
    r.append(items.as_str());
    r.append("\n]");
    r
}

/// Serialize multiple days to a JSON array; last-update times are shown in
/// local time.
pub fn render_days_json(rows: &[DailyStats]) -> (r: String)
    ensures
        exists|times: Seq<Seq<char>>|
            times.len() == rows@.len() && (forall|i: int| 0 <= i < times.len() ==> crate::cli::clock::date_time_text(
                #[trigger] times[i],
            )) && r@ == days_json_text(rows@, times),
{
    let mut times: Vec<String> = Vec::new();
    let mut i: usize = 0;
    while i < rows.len()
        invariant
            i <= rows@.len(),
            times@.len() == i,
            forall|j: int| 0 <= j < i ==> crate::cli::clock::date_time_text(#[trigger] times@[j]@),
        decreases rows@.len() - i,
    {
        times.push(crate::cli::clock::format_unix_iso(rows[i].updated_at));
        i = i + 1;
    }
    let r = render_days_json_at(rows, &times);
    let ghost tv = times@.map_values(|t: String| t@);
    assert(forall|j: int| 0 <= j < tv.len() ==> crate::cli::clock::date_time_text(#[trigger] tv[j]));
    r
}


/// Whether `y` is a leap year of the Gregorian calendar.
pub open spec fn is_leap_year(y: int) -> bool {
    (y % 4 == 0 && y % 100 != 0) || y % 400 == 0
}

/// The number of days in month `m` of year `y`.
pub open spec fn days_in_month(y: int, m: int) -> int {
    if m == 2 {
        if is_leap_year(y) { 29 } else { 28 }
    } else if m == 4 || m == 6 || m == 9 || m == 11 {
        30
    } else {
        31
    }
}

/// The value of the digits of `s` from `from` (inclusive) to `to` (exclusive).
pub open spec fn field_value(s: Seq<char>, from: int, to: int) -> int {
    crate::state::digits_value(s.subrange(from, to)) as int
}

/// Whether `s` is a calendar date written `YYYY-MM-DD`.
pub open spec fn is_valid_date(s: Seq<char>) -> bool {
    &&& s.len() == 10
    &&& s[4] == '-'
    &&& s[7] == '-'
    &&& forall|i: int| 0 <= i < 10 && i != 4 && i != 7 ==> crate::state::is_digit(#[trigger] s[i])
    &&& 1 <= field_value(s, 5, 7) <= 12
    &&& 1 <= field_value(s, 8, 10) <= days_in_month(field_value(s, 0, 4), field_value(s, 5, 7))
}

/// Four zero-padded digits of `y` (`y < 10000`).
pub open spec fn four_digits(y: nat) -> Seq<char> {
    seq![
        crate::cli::digit_char(y / 10 / 10 / 10),
        crate::cli::digit_char(y / 10 / 10 % 10),
        crate::cli::digit_char(y / 10 % 10),
        crate::cli::digit_char(y % 10),
    ]
}

/// Two zero-padded digits of `n` (`n < 100`).
pub open spec fn two_digits(n: nat) -> Seq<char> {
    seq![crate::cli::digit_char(n / 10), crate::cli::digit_char(n % 10)]
}

/// Year `y`, month `m` and day `d` written `YYYY-MM-DD`.
pub open spec fn date_text(y: nat, m: nat, d: nat) -> Seq<char> {
    four_digits(y) + seq!['-'] + two_digits(m) + seq!['-'] + two_digits(d)
}

proof fn lemma_digit_char(k: nat)
    requires
        k < 10,
    ensures
        crate::state::is_digit(crate::cli::digit_char(k)),
        crate::state::digit_value(crate::cli::digit_char(k)) == k,
{
}

proof fn lemma_digit_round_trip(c: char)
    requires
        crate::state::is_digit(c),
    ensures
        crate::state::digit_value(c) < 10,
        crate::cli::digit_char(crate::state::digit_value(c)) == c,
{
    let u = c as u32;
    assert(48 <= u <= 57);
    if u == 48 { assert(c == '0'); } else if u == 49 { assert(c == '1'); } else if u == 50 { assert(c == '2'); }
    else if u == 51 { assert(c == '3'); } else if u == 52 { assert(c == '4'); } else if u == 53 { assert(c == '5'); }
    else if u == 54 { assert(c == '6'); } else if u == 55 { assert(c == '7'); } else if u == 56 { assert(c == '8'); }
    else { assert(c == '9'); }
}

/// The fields of a written date read back as the numbers written.
proof fn lemma_date_text_fields(y: nat, m: nat, d: nat)
    requires
        y < 10000,
        m < 100,
        d < 100,
    ensures
        ({
            let t = date_text(y, m, d);
            &&& t.len() == 10
            &&& t[4] == '-'
            &&& t[7] == '-'
            &&& forall|i: int| 0 <= i < 10 && i != 4 && i != 7 ==> crate::state::is_digit(#[trigger] t[i])
            &&& field_value(t, 0, 4) == y
            &&& field_value(t, 5, 7) == m
            &&& field_value(t, 8, 10) == d
        }),
{
    let t = date_text(y, m, d);
    let y1 = y / 10;
    let y2 = y1 / 10;
    let y3 = y2 / 10;
    vstd::arithmetic::div_mod::lemma_fundamental_div_mod(y as int, 10);
    vstd::arithmetic::div_mod::lemma_fundamental_div_mod(y1 as int, 10);
    vstd::arithmetic::div_mod::lemma_fundamental_div_mod(y2 as int, 10);
    vstd::arithmetic::div_mod::lemma_fundamental_div_mod(m as int, 10);
    vstd::arithmetic::div_mod::lemma_fundamental_div_mod(d as int, 10);
    lemma_digit_char(y3);
    lemma_digit_char(y2 % 10);
    lemma_digit_char(y1 % 10);
    lemma_digit_char(y % 10);
    lemma_digit_char(m / 10);
    lemma_digit_char(m % 10);
    lemma_digit_char(d / 10);
    lemma_digit_char(d % 10);
    assert(t =~= seq![
        crate::cli::digit_char(y3), crate::cli::digit_char(y2 % 10), crate::cli::digit_char(y1 % 10),
        crate::cli::digit_char(y % 10), '-', crate::cli::digit_char(m / 10), crate::cli::digit_char(m % 10), '-',
        crate::cli::digit_char(d / 10), crate::cli::digit_char(d % 10)]);
    reveal_with_fuel(crate::state::digits_value, 5);
    assert(t.subrange(0, 4).drop_last() =~= t.subrange(0, 3));
    assert(t.subrange(0, 3).drop_last() =~= t.subrange(0, 2));
    assert(t.subrange(0, 2).drop_last() =~= t.subrange(0, 1));
    assert(t.subrange(0, 1).drop_last() =~= Seq::<char>::empty());
    assert(t.subrange(5, 7).drop_last() =~= t.subrange(5, 6));
    assert(t.subrange(5, 6).drop_last() =~= Seq::<char>::empty());
    assert(t.subrange(8, 10).drop_last() =~= t.subrange(8, 9));
    assert(t.subrange(8, 9).drop_last() =~= Seq::<char>::empty());
}

/// Law: the accepted dates are exactly the days of the Gregorian calendar —
/// a written year, month and day pass if and only if the month is one of
/// the twelve and the day exists in it: the 1st to the 28th always, the
/// 29th and 30th in every month but February, the 31st in January, March,
/// May, July, August, October and December, and February 29th in leap
/// years only (every fourth year, but not centuries not divisible by 400).
pub proof fn law_valid_dates_are_calendar_days(y: nat, m: nat, d: nat)
    requires
        y < 10000,
        m < 100,
        d < 100,
    ensures
        is_valid_date(date_text(y, m, d)) <==> (1 <= m <= 12 && 1 <= d && (d <= 28 || (d <= 30 && m != 2) || (d
            == 31 && (m == 1 || m == 3 || m == 5 || m == 7 || m == 8 || m == 10 || m == 12)) || (d == 29 && m == 2
            && ((y % 4 == 0 && y % 100 != 0) || y % 400 == 0)))),
{
    lemma_date_text_fields(y, m, d);
}

/// Law: every accepted text is a written year, month and day.
pub proof fn law_valid_dates_are_written_dates(s: Seq<char>)
    requires
        is_valid_date(s),
    ensures
        exists|y: nat, m: nat, d: nat| y < 10000 && m < 100 && d < 100 && s == date_text(y, m, d),
{
    let a0 = crate::state::digit_value(s[0]);
    let a1 = crate::state::digit_value(s[1]);
    let a2 = crate::state::digit_value(s[2]);
    let a3 = crate::state::digit_value(s[3]);
    let m0 = crate::state::digit_value(s[5]);
    let m1 = crate::state::digit_value(s[6]);
    let d0 = crate::state::digit_value(s[8]);
    let d1 = crate::state::digit_value(s[9]);
    assert(crate::state::is_digit(s[0]) && crate::state::is_digit(s[1]) && crate::state::is_digit(s[2]));
    assert(crate::state::is_digit(s[3]) && crate::state::is_digit(s[5]) && crate::state::is_digit(s[6]));
    assert(crate::state::is_digit(s[8]) && crate::state::is_digit(s[9]));
    lemma_digit_round_trip(s[0]);
    lemma_digit_round_trip(s[1]);
    lemma_digit_round_trip(s[2]);
    lemma_digit_round_trip(s[3]);
    lemma_digit_round_trip(s[5]);
    lemma_digit_round_trip(s[6]);
    lemma_digit_round_trip(s[8]);
    lemma_digit_round_trip(s[9]);
    let q2: nat = a0 * 10 + a1;
    let q1: nat = q2 * 10 + a2;
    let y: nat = q1 * 10 + a3;
    let m: nat = m0 * 10 + m1;
    let d: nat = d0 * 10 + d1;
    vstd::arithmetic::div_mod::lemma_fundamental_div_mod_converse_div(y as int, 10, q1 as int, a3 as int);
    vstd::arithmetic::div_mod::lemma_fundamental_div_mod_converse_mod(y as int, 10, q1 as int, a3 as int);
    vstd::arithmetic::div_mod::lemma_fundamental_div_mod_converse_div(q1 as int, 10, q2 as int, a2 as int);
    vstd::arithmetic::div_mod::lemma_fundamental_div_mod_converse_mod(q1 as int, 10, q2 as int, a2 as int);
    vstd::arithmetic::div_mod::lemma_fundamental_div_mod_converse_div(q2 as int, 10, a0 as int, a1 as int);
    vstd::arithmetic::div_mod::lemma_fundamental_div_mod_converse_mod(q2 as int, 10, a0 as int, a1 as int);
    vstd::arithmetic::div_mod::lemma_fundamental_div_mod_converse_div(m as int, 10, m0 as int, m1 as int);
    vstd::arithmetic::div_mod::lemma_fundamental_div_mod_converse_mod(m as int, 10, m0 as int, m1 as int);
    vstd::arithmetic::div_mod::lemma_fundamental_div_mod_converse_div(d as int, 10, d0 as int, d1 as int);
    vstd::arithmetic::div_mod::lemma_fundamental_div_mod_converse_mod(d as int, 10, d0 as int, d1 as int);
    assert(s =~= date_text(y, m, d));
}

fn digit_exec(c: char) -> (r: Option<u32>)
    ensures
        r == (if crate::state::is_digit(c) { Some(crate::state::digit_value(c) as u32) } else { None }),
        r matches Some(d) ==> d <= 9,
{
    if '0' <= c && c <= '9' {
        Some(c as u32 - '0' as u32)
    } else {
        None
    }
}

/// Whether `s` is a calendar date written `YYYY-MM-DD`.
pub fn valid_date(s: &str) -> (r: bool)
    ensures
        r == is_valid_date(s@),
{
    if s.unicode_len() != 10 || s.get_char(4) != '-' || s.get_char(7) != '-' {
        return false;
    }
    let mut v: [u32; 10] = [0; 10];
    let mut i: usize = 0;
    while i < 10
        invariant
            s@.len() == 10,
            i <= 10,
            s@[4] == '-',
            s@[7] == '-',
            forall|j: int| 0 <= j < 10 ==> #[trigger] v@[j] <= 9,
            forall|j: int| 0 <= j < i && j != 4 && j != 7 ==> crate::state::is_digit(#[trigger] s@[j])
                && v@[j] == crate::state::digit_value(s@[j]),
        decreases 10 - i,
    {
        if i != 4 && i != 7 {
            match digit_exec(s.get_char(i)) {
                Some(d) => {
                    v[i] = d;
                },
                None => {
                    return false;
                },
            }
        }
        i = i + 1;
    }
    let y: u32 = v[0] * 1000 + v[1] * 100 + v[2] * 10 + v[3];
    let m: u32 = v[5] * 10 + v[6];
    let d: u32 = v[8] * 10 + v[9];
    proof {
        reveal_with_fuel(crate::state::digits_value, 5);
        assert(s@.subrange(0, 4).drop_last() =~= s@.subrange(0, 3));
        assert(s@.subrange(0, 3).drop_last() =~= s@.subrange(0, 2));
        assert(s@.subrange(0, 2).drop_last() =~= s@.subrange(0, 1));
        assert(s@.subrange(0, 1).drop_last() =~= Seq::<char>::empty());
        assert(s@.subrange(5, 7).drop_last() =~= s@.subrange(5, 6));
        assert(s@.subrange(5, 6).drop_last() =~= Seq::<char>::empty());
        assert(s@.subrange(8, 10).drop_last() =~= s@.subrange(8, 9));
        assert(s@.subrange(8, 9).drop_last() =~= Seq::<char>::empty());
        assert(field_value(s@, 0, 4) == y);
        assert(field_value(s@, 5, 7) == m);
        assert(field_value(s@, 8, 10) == d);
    }
    if m < 1 || m > 12 {
        return false;
    }
    let leap = (y % 4 == 0 && y % 100 != 0) || y % 400 == 0;
    let dim: u32 = if m == 2 {
        if leap { 29 } else { 28 }
    } else if m == 4 || m == 6 || m == 9 || m == 11 {
        30
    } else {
        31
    };
    1 <= d && d <= dim
}

/// The date a `kim history` argument names when today is `today`:
/// `yesterday` and `last-week` are one day and seven days before it (the
/// keyword itself where that date cannot be computed), anything else is
/// taken as given.
pub open spec fn resolved_date(raw: Seq<char>, today: Seq<char>) -> Seq<char> {
    if raw == "yesterday"@ {
        match crate::cli::clock::date_minus_days(today, 1) {
            Some(d) => d,
            None => raw,
        }
    } else if raw == "last-week"@ {
        match crate::cli::clock::date_minus_days(today, 7) {
            Some(d) => d,
            None => raw,
        }
    } else {
        raw
    }
}

/// Resolve a `kim history` date argument against the date `today`.
pub fn resolve_history_date_at(raw: &str, today: &str) -> (r: String)
    ensures
        r@ == resolved_date(raw@, today@),
{
    let days: u64 = if crate::text::same_text(raw, "yesterday") {
        1
    } else if crate::text::same_text(raw, "last-week") {
        7
    } else {
        return raw.to_owned();
    };
    match crate::cli::clock::date_days_before(today, days) {
        Some(d) => d,
        None => raw.to_owned(),
    }
}

/// Resolve a `kim history` date argument: `yesterday` and `last-week` are
/// today's local date minus one day or one week; anything else is used as given.
pub fn resolve_history_date(raw: &str) -> (r: String)
    ensures
        exists|today: Seq<char>| r@ == resolved_date(raw@, today),
{
    let today = crate::cli::clock::local_today();
    resolve_history_date_at(raw, today.as_str())
}

/// The message for a `kim history` date that is not a `YYYY-MM-DD` date.
pub open spec fn invalid_date_text(date: Seq<char>) -> Seq<char> {
    "Invalid date: "@ + date + " (expected YYYY-MM-DD, yesterday or last-week)\n"@
}

/// The error for a resolved `kim history` date that is not a calendar date
/// (exit code 2), or `None` for a valid one.
pub fn check_history_date(resolved: &str) -> (r: Option<CommandOutput>)
    ensures
        r is None <==> is_valid_date(resolved@),
        r matches Some(out) ==> out.stdout@ == Seq::<char>::empty() && out.stderr@ == invalid_date_text(
            resolved@,
        ) && out.code == 2,
{
    if valid_date(resolved) {
        None
    } else {
        let mut err = String::new();
        err.append("Invalid date: ");
        err.append(resolved);
        err.append(" (expected YYYY-MM-DD, yesterday or last-week)\n");
        Some(CommandOutput { stdout: String::new(), stderr: err, code: 2 })
    }
}

/// What `kim history <date>` prints for the resolved date given the query
/// result; `updated` is the last-update time shown in the table and
/// `updated_iso` the one shown in JSON.
pub open spec fn day_report_stdout(
    resolved: Seq<char>,
    found: Option<DailyStats>,
    json: bool,
    updated: Seq<char>,
    updated_iso: Seq<char>,
) -> Seq<char> {
    match found {
        Some(stats) => if json {
            day_json_text(stats, updated_iso) + "\n"@
        } else {
            crate::cli::today::today_text(stats, updated)
        },
        None => if json {
            "{\"error\": \"No data for "@ + resolved + "\"}\n"@
        } else {
            "No data for "@ + resolved + "\n"@
        },
    }
}

/// What `kim history <date>` prints and returns for the resolved date given
/// the query result: exit code 2 when the date is not a `YYYY-MM-DD` date, else (the day's row if any, or the database error message),
/// with the last-update time given both for the table and for JSON.
pub fn history_day_report_at(
    resolved: &str,
    result: &Result<Option<DailyStats>, String>,
    json: bool,
    updated: &str,
    updated_iso: &str,
) -> (out: CommandOutput)
    requires
        result matches Ok(Some(stats)) ==> 16 + crate::cli::text_width(
            stats.date@,
        ) <= usize::MAX,
    ensures
        !is_valid_date(resolved@) ==> out.stdout@ == Seq::<char>::empty() && out.stderr@ == invalid_date_text(
            resolved@,
        ) && out.code == 2,
        is_valid_date(resolved@) ==> match result {
            Err(e) => out.stdout@ == Seq::<char>::empty() && out.stderr@ == crate::cli::db_error_text(e@)
                && out.code == 3,
            Ok(found) => out.stderr@ == Seq::<char>::empty() && out.code == (if found is Some { 0i32 } else { 1i32 })
                && out.stdout@ == day_report_stdout(resolved@, *found, json, updated@, updated_iso@),
        },
{
    if let Some(out) = check_history_date(resolved) {
        return out;
    }
    match result {
        Err(e) => crate::cli::db_error_output(e.as_str(), 3),
        Ok(Some(stats)) => {
            if json {
                let mut t = render_day_json_at(stats, updated_iso);
                t.append("\n");
                crate::cli::stdout_output(t, 0)
            } else {
                crate::cli::stdout_output(crate::cli::today::render_today_at(stats, updated), 0)
            }
        },
        Ok(None) => {
            let mut t = String::new();
            if json {
                t.append("{\"error\": \"No data for ");
                t.append(resolved);
                t.append("\"}\n");
            } else {
                t.append("No data for ");
                t.append(resolved);
                t.append("\n");
            }
            crate::cli::stdout_output(t, 1)
        },
    }
}

/// What `kim history <date>` prints and returns; last-update times are shown
/// in local time.
pub fn history_day_report(resolved: &str, result: &Result<Option<DailyStats>, String>, json: bool) -> (out:
    CommandOutput)
    requires
        result matches Ok(Some(stats)) ==> 16 + crate::cli::text_width(
            stats.date@,
        ) <= usize::MAX,
    ensures
        !is_valid_date(resolved@) ==> out.stdout@ == Seq::<char>::empty() && out.stderr@ == invalid_date_text(
            resolved@,
        ) && out.code == 2,
        is_valid_date(resolved@) ==> match result {
            Err(e) => out.stdout@ == Seq::<char>::empty() && out.stderr@ == crate::cli::db_error_text(e@)
                && out.code == 3,
            Ok(found) => out.stderr@ == Seq::<char>::empty() && out.code == (if found is Some { 0i32 } else { 1i32 })
                && exists|updated: Seq<char>, updated_iso: Seq<char>|
                crate::cli::clock::clock_text(updated) && crate::cli::clock::date_time_text(updated_iso)
                    && out.stdout@ == day_report_stdout(resolved@, *found, json, updated, updated_iso),
        },
{
    let (updated, updated_iso) = match result {
        Ok(Some(stats)) => (
            crate::cli::clock::format_unix_local(stats.updated_at),
            crate::cli::clock::format_unix_iso(stats.updated_at),
        ),
        _ => (crate::cli::clock::shown_time(None), crate::cli::clock::shown_time(None)),
    };
    history_day_report_at(resolved, result, json, updated.as_str(), updated_iso.as_str())
}

/// The label above the multi-day table.
pub open spec fn days_label_text(days: u32) -> Seq<char> {
    "最近 "@ + crate::cli::decimal(days as nat) + " 天统计"@
}

/// What `kim history --days N` prints for the query result; `times[i]` is
/// the JSON last-update time of the `i`-th row.
pub open spec fn days_report_stdout(days: u32, rows: Seq<DailyStats>, json: bool, times: Seq<Seq<char>>) -> Seq<
    char,
> {
    if rows.len() == 0 {
        if json { "[]\n"@ } else { "No history data available.\n"@ }
    } else if json {
        days_json_text(rows, times) + "\n"@
    } else {
        days_list_text(days_label_text(days), rows)
    }
}

/// What `kim history --days N` prints and returns given the query result
/// (the rows, newest first, or the database error message).
pub fn history_days_report(days: u32, result: &Result<Vec<DailyStats>, String>, json: bool) -> (out:
    CommandOutput)
    ensures
        result matches Err(e) ==> out.stdout@ == Seq::<char>::empty() && out.stderr@
            == crate::cli::db_error_text(e@) && out.code == 3,
        result matches Ok(rows) ==> out.stderr@ == Seq::<char>::empty() && out.code == (if rows@.len()
            == 0 { 1i32 } else { 0i32 }),
        result matches Ok(rows) ==> exists|times: Seq<Seq<char>>|
            times.len() == rows@.len() && (forall|i: int| 0 <= i < times.len() ==> crate::cli::clock::date_time_text(
                #[trigger] times[i],
            )) && out.stdout@ == days_report_stdout(days, rows@, json, times),
{
    match result {
        Err(e) => {
            let out = crate::cli::db_error_output(e.as_str(), 3);
            assert(out.stderr@ == crate::cli::db_error_text(e@));
            out
        },
        Ok(rows) => {
            if rows.len() == 0 {
                let mut t = String::new();
                if json {
                    t.append("[]\n");
                } else {
                    t.append("No history data available.\n");
                }
                let out = crate::cli::stdout_output(t, 1);
                assert(out.stdout@ == days_report_stdout(days, rows@, json, Seq::<Seq<char>>::empty()));
                out
            } else if json {
                let mut t = render_days_json(rows.as_slice());
                let ghost times = choose|times: Seq<Seq<char>>|
                    times.len() == rows@.len() && (forall|i: int| 0 <= i < times.len()
                        ==> crate::cli::clock::date_time_text(#[trigger] times[i])) && t@ == days_json_text(rows@, times);
                t.append("\n");
                let out = crate::cli::stdout_output(t, 0);
                assert(out.stdout@ == days_report_stdout(days, rows@, json, times));
                out
            } else {
                let mut label = String::new();
                label.append("最近 ");
                push_decimal(&mut label, days as u64);
                label.append(" 天统计");
                assert(label@ =~= days_label_text(days));
                let out = crate::cli::stdout_output(render_days_list(label.as_str(), rows.as_slice()), 0);
                let ghost blank = Seq::new(rows@.len(), |_i: int| "N/A"@);
                assert(out.stdout@ == days_report_stdout(days, rows@, json, blank));
                out
            }
        },
    }
}

} // verus!
