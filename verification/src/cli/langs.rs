//! `kim langs` — programming-language input and focus time statistics.

use vstd::prelude::*;

use crate::cli::{label_cell, number_cell, pad_right_to, push_decimal, text_cell, CommandOutput};
use crate::cli::table::{row_line, rule_line};

verus! {

/// One row of `language_stats` for a date.
pub struct LangRow {
    pub language: String,
    pub characters: i64,
    pub focus_seconds: i64,
}

/// Column display widths (approximate terminal columns; CJK = 2 cols each).
pub const COL_LANG: usize = 16;
pub const COL_CH: usize = 12;
pub const COL_FOCUS: usize = 12;

/// A focus time as hours and minutes (`"1h 5m"`, `"42m"`, `"0m"`); a
/// positive time under one minute is `"<1m"`.
pub open spec fn duration_text(seconds: int) -> Seq<char> {
    if seconds <= 0 {
        "0m"@
    } else if seconds < 60 {
        "<1m"@
    } else {
        let h = seconds / 3600;
        let m = (seconds % 3600) / 60;
        if h > 0 {
            crate::cli::decimal(h as nat) + "h "@ + crate::cli::decimal(m as nat) + "m"@
        } else {
            crate::cli::decimal(m as nat) + "m"@
        }
    }
}

/// `h` hours and `m` minutes as shown: `"Xh Ym"`, or `"Ym"` without hours.
pub open spec fn hours_minutes_text(h: nat, m: nat) -> Seq<char> {
    if h > 0 {
        crate::cli::decimal(h) + "h "@ + crate::cli::decimal(m) + "m"@
    } else {
        crate::cli::decimal(m) + "m"@
    }
}

/// Law: a focus time of at least a minute shows the whole hours and the
/// remaining whole minutes it holds — for the `h` and `m < 60` with
/// `h·3600 + m·60 <= seconds < h·3600 + (m + 1)·60`, the text is `h` hours
/// and `m` minutes (the hours left out when there are none).
pub proof fn law_duration_is_whole_hours_and_minutes(seconds: int, h: nat, m: nat)
    requires
        seconds >= 60,
        m < 60,
        h * 3600 + m * 60 <= seconds < h * 3600 + (m + 1) * 60,
    ensures
        duration_text(seconds) == hours_minutes_text(h, m),
{
    let r = seconds - h * 3600;
    assert(0 <= r < 3600) by (nonlinear_arith)
        requires
            m < 60,
            h * 3600 + m * 60 <= seconds < h * 3600 + (m + 1) * 60,
            r == seconds - h * 3600;
    vstd::arithmetic::div_mod::lemma_fundamental_div_mod_converse_div(seconds, 3600, h as int, r);
    vstd::arithmetic::div_mod::lemma_fundamental_div_mod_converse_mod(seconds, 3600, h as int, r);
    let r2 = r - m * 60;
    assert(0 <= r2 < 60) by (nonlinear_arith)
        requires
            h * 3600 + m * 60 <= seconds < h * 3600 + (m + 1) * 60,
            r == seconds - h * 3600,
            r2 == r - m * 60;
    vstd::arithmetic::div_mod::lemma_fundamental_div_mod_converse_div(r, 60, m as int, r2);
}

/// Format a number of seconds as hours and minutes.
pub fn format_duration(seconds: i64) -> (r: String)
    ensures
        r@ == duration_text(seconds as int),
{
    let mut r = String::new();
    if seconds <= 0 {
        r.append("0m");
        return r;
    }
    if seconds < 60 {
        r.append("<1m");
        return r;
    }
    let h = seconds / 3600;
    let m = (seconds % 3600) / 60;
    if h > 0 {
        push_decimal(&mut r, h as u64);
        r.append("h ");
    }
    push_decimal(&mut r, m as u64);
    r.append("m");
    r
}

proof fn lemma_duration_text_len(seconds: int)
    requires
        seconds <= i64::MAX,
    ensures
        duration_text(seconds).len() <= 50,
{
    reveal_strlit("0m");
    reveal_strlit("<1m");
    reveal_strlit("h ");
    reveal_strlit("m");
    if seconds > 0 {
        crate::cli::lemma_decimal_len((seconds / 3600) as nat);
        crate::cli::lemma_decimal_len(((seconds % 3600) / 60) as nat);
    }
}

impl LangRow {
    /// The row can be rendered: the language's width fits the machine's `usize`.
    pub open spec fn printable(&self) -> bool {
        1 + crate::cli::text_width(self.language@) <= usize::MAX
    }
}

/// One table line for `row`.
pub open spec fn lang_row_text(row: LangRow) -> Seq<char> {
    crate::cli::table::row_text(
        seq![
            crate::cli::padded_right(seq![' '] + row.language@, COL_LANG as nat),
            crate::cli::number_cell_text(row.characters, 9, COL_CH as nat),
            crate::cli::text_cell_text(duration_text(row.focus_seconds as int), 9, COL_FOCUS as nat),
        ],
    )
}

/// The table lines for all rows, in order.
pub open spec fn lang_rows_text(rows: Seq<LangRow>) -> Seq<char>
    decreases rows.len(),
{
    if rows.len() == 0 {
        Seq::empty()
    } else {
        lang_rows_text(rows.drop_last()) + lang_row_text(rows.last())
    }
}

/// The column widths in order.
pub open spec fn langs_widths() -> Seq<usize> {
    seq![COL_LANG, COL_CH, COL_FOCUS]
}

/// Width inside the outer border.
pub open spec fn langs_inner() -> nat {
    (COL_LANG + 1 + COL_CH + 1 + COL_FOCUS) as nat
}

/// The title, border and header lines.
pub open spec fn langs_header(date: Seq<char>) -> Seq<char> {
    crate::cli::table::rule_text("┌"@, ""@, "┐"@, seq![langs_inner() as usize])
    + crate::cli::table::row_text(seq![crate::cli::padded_right("  编程语言统计  "@ + date, langs_inner())])
    + crate::cli::table::rule_text("├"@, "┬"@, "┤"@, langs_widths())
    + crate::cli::table::row_text(
        seq![
            crate::cli::padded_right(" 语言"@, COL_LANG as nat),
            crate::cli::padded_right(" 字符数"@, COL_CH as nat),
            crate::cli::padded_right(" 专注时间"@, COL_FOCUS as nat),
        ],
    )
    + crate::cli::table::rule_text("├"@, "┼"@, "┤"@, langs_widths())
}

/// The full `kim langs` table.
pub open spec fn langs_text(rows: Seq<LangRow>, date: Seq<char>) -> Seq<char> {
    langs_header(date) + lang_rows_text(rows) + crate::cli::table::rule_text("└"@, "┴"@, "┘"@, langs_widths())
}

fn lang_row(row: &LangRow) -> (r: String)
    requires
        row.printable(),
    ensures
        r@ == lang_row_text(*row),
{
    let mut name = String::new();
    name.append(" ");
    name.append(row.language.as_str());
    proof {
        reveal_strlit(" ");
        crate::cli::law_width_of_concat(" "@, row.language@);
        reveal_with_fuel(crate::cli::text_width, 2);
        lemma_duration_text_len(row.focus_seconds as int);
    }
    assert(name@ =~= seq![' '] + row.language@);
    let mut cells: Vec<String> = Vec::new();
    cells.push(pad_right_to(name.as_str(), COL_LANG));
    cells.push(number_cell(row.characters, 9, COL_CH));
    let d = format_duration(row.focus_seconds);
    cells.push(text_cell(d.as_str(), 9, COL_FOCUS));
    assert(crate::cli::table::views(cells@) =~= seq![
        crate::cli::padded_right(seq![' '] + row.language@, COL_LANG as nat),
        crate::cli::number_cell_text(row.characters, 9, COL_CH as nat),
        crate::cli::text_cell_text(duration_text(row.focus_seconds as int), 9, COL_FOCUS as nat),
    ]);
    row_line(&cells)
}

fn langs_title_line(date: &str) -> (r: String)
    requires
        16 + crate::cli::text_width(date@) <= usize::MAX,
    ensures
        r@ == crate::cli::table::row_text(seq![crate::cli::padded_right("  编程语言统计  "@ + date@, langs_inner())]),
{
    let inner: usize = COL_LANG + 1 + COL_CH + 1 + COL_FOCUS;
    let mut title = String::new();
    title.append("  编程语言统计  ");
    title.append(date);
    proof {
        reveal_strlit("  编程语言统计  ");
        crate::cli::law_width_of_concat("  编程语言统计  "@, date@);
        assert(crate::cli::text_width("  编程语言统计  "@) == 16) by {
            reveal_with_fuel(crate::cli::text_width, 11);
        }
    }
    let mut cells: Vec<String> = Vec::new();
    cells.push(pad_right_to(title.as_str(), inner));
    assert(crate::cli::table::views(cells@) =~= seq![
        crate::cli::padded_right("  编程语言统计  "@ + date@, langs_inner())]);
    row_line(&cells)
}

fn langs_heading_line() -> (r: String)
    ensures
        r@ == crate::cli::table::row_text(
            seq![
                crate::cli::padded_right(" 语言"@, COL_LANG as nat),
                crate::cli::padded_right(" 字符数"@, COL_CH as nat),
                crate::cli::padded_right(" 专注时间"@, COL_FOCUS as nat),
            ],
        ),
{
    proof {
        reveal_strlit(" 语言");
        reveal_strlit(" 字符数");
        reveal_strlit(" 专注时间");
    }
    let mut heads: Vec<String> = Vec::new();
    heads.push(label_cell(" 语言", COL_LANG));
    heads.push(label_cell(" 字符数", COL_CH));
    heads.push(label_cell(" 专注时间", COL_FOCUS));
    assert(crate::cli::table::views(heads@) =~= seq![
        crate::cli::padded_right(" 语言"@, COL_LANG as nat),
        crate::cli::padded_right(" 字符数"@, COL_CH as nat),
        crate::cli::padded_right(" 专注时间"@, COL_FOCUS as nat),
    ]);
    row_line(&heads)
}

/// Render the per-language table for `date`.
pub fn render_langs(rows: &[LangRow], date: &str) -> (r: String)
    requires
        forall|i: int| 0 <= i < rows@.len() ==> #[trigger] rows@[i].printable(),
        16 + crate::cli::text_width(date@) <= usize::MAX,
    ensures
        r@ == langs_text(rows@, date@),
{
    let inner: usize = COL_LANG + 1 + COL_CH + 1 + COL_FOCUS;
    let widths: [usize; 3] = [COL_LANG, COL_CH, COL_FOCUS];
    assert(widths@ =~= langs_widths());
    let mut out = rule_line("┌", "", "┐", &[inner]);
    out.append(langs_title_line(date).as_str());
    out.append(rule_line("├", "┬", "┤", &widths).as_str());
    out.append(langs_heading_line().as_str());
    out.append(rule_line("├", "┼", "┤", &widths).as_str());
    let ghost head = out@;
    assert(head == langs_header(date@));
    let mut i: usize = 0;
    while i < rows.len()
        invariant
            i <= rows@.len(),
            forall|j: int| 0 <= j < rows@.len() ==> #[trigger] rows@[j].printable(),
            out@ == head + lang_rows_text(rows@.take(i as int)),
        decreases rows@.len() - i,
    {
        assert(rows@.take(i + 1).drop_last() =~= rows@.take(i as int));
        out.append(lang_row(&rows[i]).as_str());
        i = i + 1;
        assert(out@ =~= head + lang_rows_text(rows@.take(i as int)));
    }
    assert(rows@.take(rows@.len() as int) =~= rows@);
    out.append(rule_line("└", "┴", "┘", &widths).as_str());
    assert(out@ =~= langs_text(rows@, date@));
    out
}

/// What `kim langs` prints for `date` given the query result (rows, or the
/// database error message): the table, a hint with exit code 1 when there
/// is no row, or the error with exit code 2.
pub fn langs_report(date: &str, result: &Result<Vec<LangRow>, String>) -> (out: CommandOutput)
    requires
        result matches Ok(rows) ==> forall|i: int| 0 <= i < rows@.len() ==> #[trigger] rows@[i].printable(),
        16 + crate::cli::text_width(date@) <= usize::MAX,
    ensures
        match result {
            Err(e) => out.stdout@ == Seq::<char>::empty() && out.stderr@ == crate::cli::db_error_text(e@)
                && out.code == 2,
            Ok(rows) => out.stderr@ == Seq::<char>::empty() && out.code == (if rows@.len() == 0 {
                1i32
            } else {
                0i32
            }) && out.stdout@ == (if rows@.len() == 0 {
                "No language data for "@ + date@ + ".  Start kim with: kim start\n"@
            } else {
                langs_text(rows@, date@)
            }),
        },
{
    match result {
        Err(e) => crate::cli::db_error_output(e.as_str(), 2),
        Ok(rows) => {
            if rows.len() == 0 {
                let mut t = String::new();
                t.append("No language data for ");
                t.append(date);
                t.append(".  Start kim with: kim start\n");
                crate::cli::stdout_output(t, 1)
            } else {
                crate::cli::stdout_output(render_langs(rows.as_slice(), date), 0)
            }
        },
    }
}

} // verus!
