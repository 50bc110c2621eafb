//! `kim reset` — wipe statistics, after a confirmation.

use vstd::prelude::*;

use crate::cli::{push_decimal, CommandOutput};
use crate::text::{lowercase, to_lowercase};

verus! {

/// What is being wiped: one day's statistics or all of them.
pub open spec fn scope_text(date: Option<Seq<char>>) -> Seq<char> {
    match date {
        Some(d) => "日期 "@ + d + " 的统计数据"@,
        None => "所有统计数据"@,
    }
}

/// Describe what a reset wipes.
pub fn reset_scope(date: Option<&str>) -> (r: String)
    ensures
        r@ == scope_text(match date {
            Some(d) => Some(d@),
            None => None,
        }),
{
    let mut r = String::new();
    match date {
        Some(d) => {
            r.append("日期 ");
            r.append(d);
            r.append(" 的统计数据");
        },
        None => {
            r.append("所有统计数据");
        },
    }
    r
}

/// The confirmation question printed before wiping.
pub fn reset_prompt(scope: &str) -> (r: String)
    ensures
        r@ == "确定要清空 "@ + scope@ + " 吗？此操作不可撤销。[y/N] "@,
{
    let mut r = String::new();
    r.append("确定要清空 ");
    r.append(scope);
    r.append(" 吗？此操作不可撤销。[y/N] ");
    r
}

/// Whether a trimmed, lower-cased answer says yes: it is `y` or `yes`.
pub open spec fn says_yes(lowered: Seq<char>) -> bool {
    lowered == "y"@ || lowered == "yes"@
}

/// Whether the typed answer confirms: once trimmed and lower-cased it is
/// `y` or `yes`.
pub open spec fn confirms(input: Seq<char>) -> bool {
    says_yes(lowercase(crate::text::trimmed(input)))
}

/// Whether a trimmed, lower-cased answer says yes.
pub fn is_yes(lowered: &str) -> (r: bool)
    ensures
        r == says_yes(lowered@),
{
    crate::text::same_text(lowered, "y") || crate::text::same_text(lowered, "yes")
}

/// Whether the typed answer confirms the reset.
pub fn reset_confirmed(input: &str) -> (r: bool)
    ensures
        r == confirms(input@),
{
    let t = crate::text::trim_text(input);
    let lower = to_lowercase(t.as_str());
    is_yes(lower.as_str())
}

/// What a declined reset prints.
pub fn reset_cancelled() -> (out: CommandOutput)
    ensures
        out.stdout@ == "已取消。\n"@,
        out.stderr@ == Seq::<char>::empty(),
        out.code == 0,
{
    let mut t = String::new();
    t.append("已取消。\n");
    crate::cli::stdout_output(t, 0)
}

/// What a reset prints when the answer cannot be read.
pub fn reset_unreadable() -> (out: CommandOutput)
    ensures
        out.stdout@ == Seq::<char>::empty(),
        out.stderr@ == "无法读取输入\n"@,
        out.code == 2,
{
    let mut e = String::new();
    e.append("无法读取输入\n");
    CommandOutput { stdout: String::new(), stderr: e, code: 2 }
}

/// What a reset prints once the deletion ran: the number of rows removed,
/// or the database error with exit code 2.
pub fn reset_report(scope: &str, result: &Result<usize, String>) -> (out: CommandOutput)
    ensures
        result matches Ok(n) ==> out.stdout@ == "已清空 "@ + scope@ + "（共删除 "@ + crate::cli::decimal(
            n as nat,
        ) + " 条记录）。\n"@ && out.stderr@ == Seq::<char>::empty() && out.code == 0,
        result matches Err(e) ==> out.stdout@ == Seq::<char>::empty() && out.stderr@ == "数据库错误: "@ + e@
            + "\n"@ && out.code == 2,
{
    match result {
        Ok(n) => {
            let mut t = String::new();
            t.append("已清空 ");
            t.append(scope);
            t.append("（共删除 ");
            push_decimal(&mut t, *n as u64);
            t.append(" 条记录）。\n");
            crate::cli::stdout_output(t, 0)
        },
        Err(e) => {
            let mut m = String::new();
            m.append("数据库错误: ");
            m.append(e.as_str());
            m.append("\n");
            CommandOutput { stdout: String::new(), stderr: m, code: 2 }
        },
    }
}

} // verus!
