//! `kim apps` — per-application input statistics.

use vstd::prelude::*;

use crate::cli::{label_cell, number_cell, pad_right_to, CommandOutput};
use crate::cli::table::{row_line, rule_line};

verus! {

/// One row of `app_stats` for a date.
pub struct AppRow {
    pub process_name: String,
    pub keystrokes: i64,
    pub characters: i64,
    pub ctrl_c: i64,
    pub ctrl_v: i64,
}

/// Column display widths (in terminal columns; CJK = 2 cols each).
pub const COL_APP: usize = 18;
pub const COL_KS: usize = 10;
pub const COL_CH: usize = 10;
pub const COL_CC: usize = 8;
pub const COL_CV: usize = 8;

/// Width inside the outer border.
pub open spec fn apps_inner() -> nat {
    (COL_APP + 1 + COL_KS + 1 + COL_CH + 1 + COL_CC + 1 + COL_CV) as nat
}

/// The column widths in order.
pub open spec fn apps_widths() -> Seq<usize> {
    seq![COL_APP, COL_KS, COL_CH, COL_CC, COL_CV]
}

/// Bytes that `c` takes in UTF-8.
pub open spec fn utf8_len(c: char) -> nat {
    let u = c as u32;
    if u < 0x80 { 1 } else if u < 0x800 { 2 } else if u < 0x10000 { 3 } else { 4 }
}

/// Bytes that `s` takes in UTF-8.
pub open spec fn utf8_size(s: Seq<char>) -> nat
    decreases s.len(),
{
    if s.len() == 0 {
        0
    } else {
        utf8_size(s.drop_last()) + utf8_len(s.last())
    }
}

/// The longest prefix of `s` that fits in `n` UTF-8 bytes.
pub open spec fn byte_prefix(s: Seq<char>, n: nat) -> Seq<char>
    decreases s.len(),
{
    if s.len() == 0 || utf8_len(s[0]) > n {
        Seq::empty()
    } else {
        seq![s[0]] + byte_prefix(s.drop_first(), (n - utf8_len(s[0])) as nat)
    }
}

/// The process name as shown: a name longer than `COL_APP - 1` bytes keeps
/// the characters that fit in its first `COL_APP - 2` bytes and gets an
/// ellipsis.
pub open spec fn shown_name(name: Seq<char>) -> Seq<char> {
    if utf8_size(name) > COL_APP - 1 {
        byte_prefix(name, (COL_APP - 2) as nat) + "…"@
    } else {
        name
    }
}

/// One table line for `row`.
pub open spec fn app_row_text(row: AppRow) -> Seq<char> {
    crate::cli::table::row_text(
        seq![
            crate::cli::padded_right(seq![' '] + shown_name(row.process_name@), COL_APP as nat),
            crate::cli::number_cell_text(row.keystrokes, 8, COL_KS as nat),
            crate::cli::number_cell_text(row.characters, 8, COL_CH as nat),
            crate::cli::number_cell_text(row.ctrl_c, 6, COL_CC as nat),
            crate::cli::number_cell_text(row.ctrl_v, 6, COL_CV as nat),
        ],
    )
}

/// The table lines for all rows, in order.
pub open spec fn app_rows_text(rows: Seq<AppRow>) -> Seq<char>
    decreases rows.len(),
{
    if rows.len() == 0 {
        Seq::empty()
    } else {
        app_rows_text(rows.drop_last()) + app_row_text(rows.last())
    }
}

/// The title, border and header lines.
pub open spec fn apps_header(date: Seq<char>) -> Seq<char> {
    crate::cli::table::rule_text("┌"@, ""@, "┐"@, seq![apps_inner() as usize])
    + crate::cli::table::row_text(seq![crate::cli::padded_right("  按应用输入统计  "@ + date, apps_inner())])
    + crate::cli::table::rule_text("├"@, "┬"@, "┤"@, apps_widths())
    + crate::cli::table::row_text(
        seq![
            crate::cli::padded_right(" 应用"@, COL_APP as nat),
            crate::cli::padded_right(" 键击"@, COL_KS as nat),
            crate::cli::padded_right(" 字符"@, COL_CH as nat),
            crate::cli::padded_right(" 复制"@, COL_CC as nat),
            crate::cli::padded_right(" 粘贴"@, COL_CV as nat),
        ],
    )
    + crate::cli::table::rule_text("├"@, "┼"@, "┤"@, apps_widths())
}

/// The full `kim apps` table.
pub open spec fn apps_text(rows: Seq<AppRow>, date: Seq<char>) -> Seq<char> {
    apps_header(date) + app_rows_text(rows) + crate::cli::table::rule_text("└"@, "┴"@, "┘"@, apps_widths())
}

fn utf8_len_exec(c: char) -> (n: usize)
    ensures
        n == utf8_len(c),
{
    let u = c as u32;
    if u < 0x80 { 1 } else if u < 0x800 { 2 } else if u < 0x10000 { 3 } else { 4 }
}

proof fn lemma_utf8_size_concat(a: Seq<char>, b: Seq<char>)
    ensures
        utf8_size(a + b) == utf8_size(a) + utf8_size(b),
    decreases b.len(),
{
    if b.len() == 0 {
        assert(a + b =~= a);
    } else {
        lemma_utf8_size_concat(a, b.drop_last());
        assert((a + b).drop_last() =~= a + b.drop_last());
    }
}

/// A character sequence never has more characters than its UTF-8 bytes.
proof fn lemma_chars_at_most_bytes(s: Seq<char>)
    ensures
        s.len() <= utf8_size(s),
    decreases s.len(),
{
    if s.len() > 0 {
        lemma_chars_at_most_bytes(s.drop_last());
    }
}

proof fn lemma_byte_prefix_len(s: Seq<char>, n: nat)
    ensures
        byte_prefix(s, n).len() <= n,
    decreases s.len(),
{
    if s.len() > 0 && utf8_len(s[0]) <= n {
        lemma_byte_prefix_len(s.drop_first(), (n - utf8_len(s[0])) as nat);
    }
}

/// Whether `s` takes more than `limit` bytes in UTF-8.
fn longer_than_bytes(s: &str, limit: usize) -> (r: bool)
    ensures
        r == (utf8_size(s@) > limit),
{
    let n = s.unicode_len();
    let mut total: usize = 0;
    let mut i: usize = 0;
    while i < n
        invariant
            n == s@.len(),
            i <= n,
            total == utf8_size(s@.take(i as int)),
            total <= limit,
        decreases n - i,
    {
        let l = utf8_len_exec(s.get_char(i));
        assert(s@.take(i + 1).drop_last() =~= s@.take(i as int));
        if l > limit - total {
            proof {
                lemma_utf8_size_concat(s@.take(i + 1), s@.skip(i + 1));
                assert(s@.take(i + 1) + s@.skip(i + 1) =~= s@);
            }
            return true;
        }
        total = total + l;
        i = i + 1;
    }
    assert(s@.take(n as int) =~= s@);
    false
}

/// The longest prefix of `s` that fits in `n` UTF-8 bytes.
fn prefix_within_bytes(s: &str, n: usize) -> (r: String)
    ensures
        r@ == byte_prefix(s@, n as nat),
{
    let len = s.unicode_len();
    let mut r = String::new();
    let mut left: usize = n;
    let mut i: usize = 0;
    assert(s@.subrange(0, len as int) =~= s@);
    assert(r@ + byte_prefix(s@, n as nat) =~= byte_prefix(s@, n as nat));
    while i < len && utf8_len_exec(s.get_char(i)) <= left
        invariant
            len == s@.len(),
            i <= len,
            byte_prefix(s@, n as nat) == r@ + byte_prefix(s@.subrange(i as int, len as int), left as nat),
        decreases len - i,
    {
        let c = s.get_char(i);
        let l = utf8_len_exec(c);
        proof {
            let t = s@.subrange(i as int, len as int);
            assert(t[0] == c);
            assert(t.drop_first() =~= s@.subrange(i + 1, len as int));
            assert(r@.push(c) + byte_prefix(s@.subrange(i + 1, len as int), (left - l) as nat) =~= r@ + (seq![c]
                + byte_prefix(t.drop_first(), (left - l) as nat)));
        }
        crate::text::push_char(&mut r, c);
        left = left - l;
        i = i + 1;
    }
    assert(r@ + byte_prefix(s@.subrange(i as int, len as int), left as nat) =~= r@);
    r
}

fn name_cell(name: &str) -> (r: String)
    ensures
        r@ == crate::cli::padded_right(seq![' '] + shown_name(name@), COL_APP as nat),
{
    let mut raw = String::new();
    raw.append(" ");
    if longer_than_bytes(name, COL_APP - 1) {
        let head = prefix_within_bytes(name, COL_APP - 2);
        proof {
            lemma_byte_prefix_len(name@, (COL_APP - 2) as nat);
        }
        raw.append(head.as_str());
        raw.append("…");
    } else {
        proof {
            lemma_chars_at_most_bytes(name@);
        }
        raw.append(name);
    }
    proof {
        reveal_strlit(" ");
        reveal_strlit("…");
    }
    assert(raw@ =~= seq![' '] + shown_name(name@));
    label_cell(raw.as_str(), COL_APP)
}

fn app_row(row: &AppRow) -> (r: String)
    ensures
        r@ == app_row_text(*row),
{
    let mut cells: Vec<String> = Vec::new();
    cells.push(name_cell(row.process_name.as_str()));
    cells.push(number_cell(row.keystrokes, 8, COL_KS));
    cells.push(number_cell(row.characters, 8, COL_CH));
    cells.push(number_cell(row.ctrl_c, 6, COL_CC));
    cells.push(number_cell(row.ctrl_v, 6, COL_CV));
    assert(crate::cli::table::views(cells@) =~= seq![
        crate::cli::padded_right(seq![' '] + shown_name(row.process_name@), COL_APP as nat),
        crate::cli::number_cell_text(row.keystrokes, 8, COL_KS as nat),
        crate::cli::number_cell_text(row.characters, 8, COL_CH as nat),
        crate::cli::number_cell_text(row.ctrl_c, 6, COL_CC as nat),
        crate::cli::number_cell_text(row.ctrl_v, 6, COL_CV as nat),
    ]);
    row_line(&cells)
}

fn apps_title_line(date: &str) -> (r: String)
    requires
        18 + crate::cli::text_width(date@) <= usize::MAX,
    ensures
        r@ == crate::cli::table::row_text(seq![crate::cli::padded_right("  按应用输入统计  "@ + date@, apps_inner())]),
{
    let inner: usize = COL_APP + 1 + COL_KS + 1 + COL_CH + 1 + COL_CC + 1 + COL_CV;
    let mut title = String::new();
    title.append("  按应用输入统计  ");
    title.append(date);
    proof {
        reveal_strlit("  按应用输入统计  ");
        crate::cli::law_width_of_concat("  按应用输入统计  "@, date@);
        assert(crate::cli::text_width("  按应用输入统计  "@) == 18) by {
            reveal_with_fuel(crate::cli::text_width, 12);
        }
    }
    let mut title_cells: Vec<String> = Vec::new();
    title_cells.push(pad_right_to(title.as_str(), inner));
    assert(crate::cli::table::views(title_cells@) =~= seq![
        crate::cli::padded_right("  按应用输入统计  "@ + date@, apps_inner())]);
    row_line(&title_cells)
}

fn apps_heading_line() -> (r: String)
    ensures
        r@ == crate::cli::table::row_text(
            seq![
                crate::cli::padded_right(" 应用"@, COL_APP as nat),
                crate::cli::padded_right(" 键击"@, COL_KS as nat),
                crate::cli::padded_right(" 字符"@, COL_CH as nat),
                crate::cli::padded_right(" 复制"@, COL_CC as nat),
                crate::cli::padded_right(" 粘贴"@, COL_CV as nat),
            ],
        ),
{
    proof {
        reveal_strlit(" 应用");
        reveal_strlit(" 键击");
        reveal_strlit(" 字符");
        reveal_strlit(" 复制");
        reveal_strlit(" 粘贴");
    }
    let mut heads: Vec<String> = Vec::new();
    heads.push(label_cell(" 应用", COL_APP));
    heads.push(label_cell(" 键击", COL_KS));
    heads.push(label_cell(" 字符", COL_CH));
    heads.push(label_cell(" 复制", COL_CC));
    heads.push(label_cell(" 粘贴", COL_CV));
    assert(crate::cli::table::views(heads@) =~= seq![
        crate::cli::padded_right(" 应用"@, COL_APP as nat),
        crate::cli::padded_right(" 键击"@, COL_KS as nat),
        crate::cli::padded_right(" 字符"@, COL_CH as nat),
        crate::cli::padded_right(" 复制"@, COL_CC as nat),
        crate::cli::padded_right(" 粘贴"@, COL_CV as nat),
    ]);
    row_line(&heads)
}

fn apps_header_lines(date: &str) -> (r: String)
    requires
        18 + crate::cli::text_width(date@) <= usize::MAX,
    ensures
        r@ == apps_header(date@),
{
    let inner: usize = COL_APP + 1 + COL_KS + 1 + COL_CH + 1 + COL_CC + 1 + COL_CV;
    let widths: [usize; 5] = [COL_APP, COL_KS, COL_CH, COL_CC, COL_CV];
    assert(widths@ =~= apps_widths());
    let mut out = rule_line("┌", "", "┐", &[inner]);
    out.append(apps_title_line(date).as_str());
    out.append(rule_line("├", "┬", "┤", &widths).as_str());
    out.append(apps_heading_line().as_str());
    out.append(rule_line("├", "┼", "┤", &widths).as_str());
    out
}

/// Render the per-application table for `date`.
pub fn render_apps(rows: &[AppRow], date: &str) -> (r: String)
    requires
        18 + crate::cli::text_width(date@) <= usize::MAX,
    ensures
        r@ == apps_text(rows@, date@),
{
    let mut out = apps_header_lines(date);
    let ghost head = out@;
    let mut i: usize = 0;
    while i < rows.len()
        invariant
            i <= rows@.len(),
            out@ == head + app_rows_text(rows@.take(i as int)),
        decreases rows@.len() - i,
    {
        assert(rows@.take(i + 1).drop_last() =~= rows@.take(i as int));
        out.append(app_row(&rows[i]).as_str());
        i = i + 1;
        assert(out@ =~= head + app_rows_text(rows@.take(i as int)));
    }
    assert(rows@.take(rows@.len() as int) =~= rows@);
    let widths: [usize; 5] = [COL_APP, COL_KS, COL_CH, COL_CC, COL_CV];
    assert(widths@ =~= apps_widths());
    out.append(rule_line("└", "┴", "┘", &widths).as_str());
    assert(out@ =~= apps_text(rows@, date@));
    out
}


/// The number of rows to show: `top` clamped to `1..=100`.
pub fn clamp_top(top: u32) -> (r: u32)
    ensures
        r == (if top < 1 { 1 } else if top > 100 { 100 } else { top }),
{
    if top < 1 {
        1
    } else if top > 100 {
        100
    } else {
        top
    }
}

/// What `kim apps` prints for `date` given the query result (rows, or the
/// database error message): the table, a hint with exit code 1 when there
/// is no row, or the error with exit code 2.
pub fn apps_report(date: &str, result: &Result<Vec<AppRow>, String>) -> (out: CommandOutput)
    requires
        18 + crate::cli::text_width(date@) <= usize::MAX,
    ensures
        match result {
            Err(e) => out.stdout@ == Seq::<char>::empty() && out.stderr@ == crate::cli::db_error_text(e@)
                && out.code == 2,
            Ok(rows) => out.stderr@ == Seq::<char>::empty() && out.code == (if rows@.len() == 0 {
                1i32
            } else {
                0i32
            }) && out.stdout@ == (if rows@.len() == 0 {
                "No app data for "@ + date@ + ".  Start kim with: kim start\n"@
            } else {
                apps_text(rows@, date@)
            }),
        },
{
    match result {
        Err(e) => crate::cli::db_error_output(e.as_str(), 2),
        Ok(rows) => {
            if rows.len() == 0 {
                let mut t = String::new();
                t.append("No app data for ");
                t.append(date);
                t.append(".  Start kim with: kim start\n");
                crate::cli::stdout_output(t, 1)
            } else {
                crate::cli::stdout_output(render_apps(rows.as_slice(), date), 0)
            }
        },
    }
}

} // verus!
