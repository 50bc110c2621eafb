//! `kim today` — today's input statistics as a boxed table.

use vstd::prelude::*;

use crate::cli::{align_right, format_number, pad_right_to, CommandOutput};
use crate::text::repeat_char;

verus! {

/// One row from `daily_stats`.
pub struct DailyStats {
    pub date: String,
    pub keystrokes: i64,
    pub mouse_clicks: i64,
    pub characters: i64,
    pub ctrl_c: i64,
    pub ctrl_v: i64,
    /// Unix timestamp (seconds since epoch).
    pub updated_at: i64,
}

/// Display width of the left cell content (label column, incl. leading space).
pub const LEFT_COL: usize = 17;
/// Display width of the right cell content (value column).
pub const RIGHT_COL: usize = 27;


/// Width of the widest of the five formatted counters.
pub open spec fn value_column_width(s: DailyStats) -> nat {
    let a = crate::cli::number_text(s.keystrokes as int).len();
    let b = crate::cli::number_text(s.mouse_clicks as int).len();
    let c = crate::cli::number_text(s.characters as int).len();
    let d = crate::cli::number_text(s.ctrl_c as int).len();
    let e = crate::cli::number_text(s.ctrl_v as int).len();
    let ab = if a >= b { a } else { b };
    let abc = if ab >= c { ab } else { c };
    let abcd = if abc >= d { abc } else { d };
    if abcd >= e { abcd } else { e }
}

/// Law: the value column is as wide as the widest formatted counter — no
/// counter is wider and one of them is exactly that wide — so all five
/// values, right-aligned to it, end at the same column.
pub proof fn law_value_column_fits_widest(s: DailyStats)
    ensures
        crate::cli::number_text(s.keystrokes as int).len() <= value_column_width(s),
        crate::cli::number_text(s.mouse_clicks as int).len() <= value_column_width(s),
        crate::cli::number_text(s.characters as int).len() <= value_column_width(s),
        crate::cli::number_text(s.ctrl_c as int).len() <= value_column_width(s),
        crate::cli::number_text(s.ctrl_v as int).len() <= value_column_width(s),
        value_column_width(s) == crate::cli::number_text(s.keystrokes as int).len()
            || value_column_width(s) == crate::cli::number_text(s.mouse_clicks as int).len()
            || value_column_width(s) == crate::cli::number_text(s.characters as int).len()
            || value_column_width(s) == crate::cli::number_text(s.ctrl_c as int).len()
            || value_column_width(s) == crate::cli::number_text(s.ctrl_v as int).len(),
        forall|v: i64|
            #![trigger crate::cli::aligned_right(crate::cli::number_text(v as int), value_column_width(s))]
            crate::cli::number_text(v as int).len() <= value_column_width(s) ==> crate::cli::aligned_right(
                crate::cli::number_text(v as int),
                value_column_width(s),
            ).len() == value_column_width(s),
{
    assert forall|v: i64|
        #![trigger crate::cli::aligned_right(crate::cli::number_text(v as int), value_column_width(s))]
        crate::cli::number_text(v as int).len() <= value_column_width(s) implies crate::cli::aligned_right(
            crate::cli::number_text(v as int),
            value_column_width(s),
        ).len() == value_column_width(s) by {
    }
}

/// One label/value line of the table.
pub open spec fn today_row_text(label: Seq<char>, value: i64, width: nat) -> Seq<char> {
    "│"@ + seq![' '] + crate::cli::padded_right(label, (LEFT_COL - 1) as nat) + "│"@
        + crate::cli::padded_right(
        seq![' '] + crate::cli::aligned_right(crate::cli::number_text(value as int), width),
        RIGHT_COL as nat,
    ) + "│\n"@
}

/// The title of the table.
pub open spec fn today_title(date: Seq<char>) -> Seq<char> {
    "  今日输入统计  "@ + date
}

/// The top border, title line and header separator of the table.
pub open spec fn today_header(date: Seq<char>) -> Seq<char> {
    let inner = (LEFT_COL + 1 + RIGHT_COL) as nat;
    "┌"@ + crate::text::repeated('─', inner) + "┐\n"@
    + "│"@ + crate::cli::padded_right(today_title(date), inner) + "│\n"@
    + "├"@ + crate::text::repeated('─', LEFT_COL as nat) + "┬"@ + crate::text::repeated('─', RIGHT_COL as nat) + "┤\n"@
}

/// The five counter lines of the table.
pub open spec fn today_rows(s: DailyStats) -> Seq<char> {
    let w = value_column_width(s);
    today_row_text("键盘敲击次数"@, s.keystrokes, w)
    + today_row_text("鼠标点击次数"@, s.mouse_clicks, w)
    + today_row_text("打字字符数"@, s.characters, w)
    + today_row_text("复制 (Ctrl+C)"@, s.ctrl_c, w)
    + today_row_text("粘贴 (Ctrl+V)"@, s.ctrl_v, w)
}

/// The bottom border and the last-update note.
pub open spec fn today_footer(updated: Seq<char>) -> Seq<char> {
    "└"@ + crate::text::repeated('─', LEFT_COL as nat) + "┴"@ + crate::text::repeated('─', RIGHT_COL as nat) + "┘\n"@
    + "（数据最后更新: "@ + updated + "，更新间隔 ≤30s）\n"@
}

/// The full `kim today` table for `s`, with `updated` as the last-update time.
pub open spec fn today_text(s: DailyStats, updated: Seq<char>) -> Seq<char> {
    today_header(s.date@) + today_rows(s) + today_footer(updated)
}

fn today_row(label: &str, value: i64, width: usize) -> (r: String)
    requires
        label@.len() <= 100,
        width <= 45,
    ensures
        r@ == today_row_text(label@, value, width as nat),
{
    proof {
        crate::cli::law_width_bounds(label@);
        crate::cli::lemma_number_text_len(value as int);
    }
    let mut r = String::new();
    r.append("│");
    r.append(" ");
    let left = pad_right_to(label, LEFT_COL - 1);
    r.append(left.as_str());
    r.append("│");
    let v = format_number(value);
    let aligned = align_right(v.as_str(), width);
    let mut raw = String::new();
    raw.append(" ");
    raw.append(aligned.as_str());
    proof {
        reveal_strlit(" ");
        assert(aligned@.len() <= 45);
        assert(raw@.len() <= 46);
        crate::cli::law_width_bounds(raw@);
    }
    let right = pad_right_to(raw.as_str(), RIGHT_COL);
    r.append(right.as_str());
    r.append("│\n");
    assert(raw@ =~= seq![' '] + crate::cli::aligned_right(crate::cli::number_text(value as int), width as nat));
    assert(r@ =~= today_row_text(label@, value, width as nat));
    r
}

fn today_header_lines(date: &str) -> (r: String)
    requires
        16 + crate::cli::text_width(date@) <= usize::MAX,
    ensures
        r@ == today_header(date@),
{
    let inner: usize = LEFT_COL + 1 + RIGHT_COL;
    let mut title = String::new();
    title.append("  今日输入统计  ");
    title.append(date);
    proof {
        reveal_strlit("  今日输入统计  ");
        crate::cli::law_width_of_concat("  今日输入统计  "@, date@);
        assert(crate::cli::text_width("  今日输入统计  "@) == 16) by {
            reveal_with_fuel(crate::cli::text_width, 11);
        }
    }
    let mut out = String::new();
    out.append("┌");
    out.append(repeat_char('─', inner).as_str());
    out.append("┐\n");
    out.append("│");
    out.append(pad_right_to(title.as_str(), inner).as_str());
    out.append("│\n");
    out.append("├");
    out.append(repeat_char('─', LEFT_COL).as_str());
    out.append("┬");
    out.append(repeat_char('─', RIGHT_COL).as_str());
    out.append("┤\n");
    assert(out@ =~= today_header(date@));
    out
}

fn today_row_lines(stats: &DailyStats) -> (r: String)
    ensures
        r@ == today_rows(*stats),
{
    proof {
        reveal_strlit("键盘敲击次数");
        reveal_strlit("鼠标点击次数");
        reveal_strlit("打字字符数");
        reveal_strlit("复制 (Ctrl+C)");
        reveal_strlit("粘贴 (Ctrl+V)");
        crate::cli::lemma_number_text_len(stats.keystrokes as int);
        crate::cli::lemma_number_text_len(stats.mouse_clicks as int);
        crate::cli::lemma_number_text_len(stats.characters as int);
        crate::cli::lemma_number_text_len(stats.ctrl_c as int);
        crate::cli::lemma_number_text_len(stats.ctrl_v as int);
    }
    let v1 = format_number(stats.keystrokes);
    let v2 = format_number(stats.mouse_clicks);
    let v3 = format_number(stats.characters);
    let v4 = format_number(stats.ctrl_c);
    let v5 = format_number(stats.ctrl_v);
    let mut w = v1.as_str().unicode_len();
    let n2 = v2.as_str().unicode_len();
    if n2 > w { w = n2; }
    let n3 = v3.as_str().unicode_len();
    if n3 > w { w = n3; }
    let n4 = v4.as_str().unicode_len();
    if n4 > w { w = n4; }
    let n5 = v5.as_str().unicode_len();
    if n5 > w { w = n5; }
    assert(w == value_column_width(*stats));
    let mut out = String::new();
    out.append(today_row("键盘敲击次数", stats.keystrokes, w).as_str());
    out.append(today_row("鼠标点击次数", stats.mouse_clicks, w).as_str());
    out.append(today_row("打字字符数", stats.characters, w).as_str());
    out.append(today_row("复制 (Ctrl+C)", stats.ctrl_c, w).as_str());
    out.append(today_row("粘贴 (Ctrl+V)", stats.ctrl_v, w).as_str());
    assert(out@ =~= today_rows(*stats));
    out
}

fn today_footer_lines(updated: &str) -> (r: String)
    ensures
        r@ == today_footer(updated@),
{
    let mut out = String::new();
    out.append("└");
    out.append(repeat_char('─', LEFT_COL).as_str());
    out.append("┴");
    out.append(repeat_char('─', RIGHT_COL).as_str());
    out.append("┘\n");
    out.append("（数据最后更新: ");
    out.append(updated);
    out.append("，更新间隔 ≤30s）\n");
    assert(out@ =~= today_footer(updated@));
    out
}

/// Render the boxed two-column stats table, with `updated` shown as the
/// time of the last update.
pub fn render_today_at(stats: &DailyStats, updated: &str) -> (r: String)
    requires
        16 + crate::cli::text_width(stats.date@) <= usize::MAX,
    ensures
        r@ == today_text(*stats, updated@),
{
    let mut out = today_header_lines(stats.date.as_str());
    out.append(today_row_lines(stats).as_str());
    out.append(today_footer_lines(updated).as_str());
    out
}

/// Render the boxed two-column stats table for `kim today` and
/// `kim history <date>`; the last-update time is shown in local time.
pub fn render_today(stats: &DailyStats) -> (r: String)
    requires
        16 + crate::cli::text_width(stats.date@) <= usize::MAX,
    ensures
        exists|updated: Seq<char>| crate::cli::clock::clock_text(updated) && r@ == today_text(*stats, updated),
{
    let updated = crate::cli::clock::format_unix_local(stats.updated_at);
    render_today_at(stats, updated.as_str())
}


/// What `kim today` prints and returns given the query result for today
/// (the row if any, or the database error message): no row yet is exit
/// code 1, with the hint to start the monitor.
pub fn today_report(result: &Result<Option<DailyStats>, String>) -> (out: CommandOutput)
    requires
        result matches Ok(Some(stats)) ==> 16 + crate::cli::text_width(
            stats.date@,
        ) <= usize::MAX,
    ensures
        result matches Err(e) ==> out.stdout@ == Seq::<char>::empty() && out.stderr@
            == crate::cli::db_error_text(e@) && out.code == 2,
        result matches Ok(None) ==> out.stdout@ == "No data for today yet.  Start kim with: kim start\n"@
            && out.stderr@ == Seq::<char>::empty() && out.code == 1,
        result matches Ok(Some(stats)) ==> out.stderr@ == Seq::<char>::empty() && out.code == 0
            && exists|updated: Seq<char>| crate::cli::clock::clock_text(updated) && out.stdout@ == today_text(
                *stats,
                updated,
            ),
{
    match result {
        Err(e) => crate::cli::db_error_output(e.as_str(), 2),
        Ok(None) => {
            let mut t = String::new();
            t.append("No data for today yet.  Start kim with: kim start\n");
            crate::cli::stdout_output(t, 1)
        },
        Ok(Some(stats)) => crate::cli::stdout_output(render_today(stats), 0),
    }
}

} // verus!
