//! Display helpers shared by the command renderers.

pub mod apps;
pub mod autostart;
pub mod clock;
pub mod daemon;
pub mod history;
pub mod langs;
pub mod reset;
pub mod table;
pub mod today;

use vstd::prelude::*;

use crate::text::repeat_char;

verus! {

/// The decimal digit character for `d` (`d < 10`).
pub open spec fn digit_char(d: nat) -> char {
    if d == 0 { '0' }
    else if d == 1 { '1' }
    else if d == 2 { '2' }
    else if d == 3 { '3' }
    else if d == 4 { '4' }
    else if d == 5 { '5' }
    else if d == 6 { '6' }
    else if d == 7 { '7' }
    else if d == 8 { '8' }
    else { '9' }
}

/// Plain decimal representation of `n`, most significant digit first.
pub open spec fn decimal(n: nat) -> Seq<char>
    decreases n,
{
    if n < 10 {
        seq![digit_char(n)]
    } else {
        decimal(n / 10).push(digit_char(n % 10))
    }
}

fn digit_char_exec(d: u64) -> (c: char)
    requires
        d < 10,
    ensures
        c == digit_char(d as nat),
{
    if d == 0 { '0' }
    else if d == 1 { '1' }
    else if d == 2 { '2' }
    else if d == 3 { '3' }
    else if d == 4 { '4' }
    else if d == 5 { '5' }
    else if d == 6 { '6' }
    else if d == 7 { '7' }
    else if d == 8 { '8' }
    else { '9' }
}

pub(crate) fn push_decimal(s: &mut String, n: u64)
    ensures
        final(s)@ == old(s)@ + decimal(n as nat),
    decreases n,
{
    if n < 10 {
        crate::text::push_char(s, digit_char_exec(n));
        assert(final(s)@ =~= old(s)@ + decimal(n as nat));
    } else {
        push_decimal(s, n / 10);
        crate::text::push_char(s, digit_char_exec(n % 10));
        assert(final(s)@ =~= old(s)@ + decimal(n as nat));
    }
}


/// Three zero-padded digits of `m` (`m < 1000`).
pub open spec fn three_digits(m: nat) -> Seq<char> {
    seq![digit_char(m / 100), digit_char((m / 10) % 10), digit_char(m % 10)]
}

/// Decimal representation of `n` with a comma between each group of three
/// digits, counted from the right.
pub open spec fn grouped(n: nat) -> Seq<char>
    decreases n,
{
    if n < 1000 {
        decimal(n)
    } else {
        grouped(n / 1000) + seq![','] + three_digits(n % 1000)
    }
}

/// What `format_number` shows for `n`: a minus sign for negative numbers,
/// then the grouped magnitude.
pub open spec fn number_text(n: int) -> Seq<char> {
    if n < 0 {
        seq!['-'] + grouped((-n) as nat)
    } else {
        grouped(n as nat)
    }
}

fn push_grouped(s: &mut String, n: u64)
    ensures
        final(s)@ == old(s)@ + grouped(n as nat),
    decreases n,
{
    if n < 1000 {
        push_decimal(s, n);
    } else {
        push_grouped(s, n / 1000);
        let m = n % 1000;
        crate::text::push_char(s, ',');
        crate::text::push_char(s, digit_char_exec(m / 100));
        crate::text::push_char(s, digit_char_exec((m / 10) % 10));
        crate::text::push_char(s, digit_char_exec(m % 10));
        assert(final(s)@ =~= old(s)@ + grouped(n as nat));
    }
}

/// Format an integer with thousands-separator commas (e.g. 12345 → "12,345").
pub fn format_number(n: i64) -> (r: String)
    ensures
        r@ == number_text(n as int),
{
    let mut r = String::new();
    if n < 0 {
        crate::text::push_char(&mut r, '-');
        let magnitude: u64 = ((-(n + 1)) as u64) + 1;
        push_grouped(&mut r, magnitude);
    } else {
        push_grouped(&mut r, n as u64);
    }
    assert(r@ =~= number_text(n as int));
    r
}


/// `s` with every comma removed.
pub open spec fn strip_commas(s: Seq<char>) -> Seq<char>
    decreases s.len(),
{
    if s.len() == 0 {
        s
    } else if s.last() == ',' {
        strip_commas(s.drop_last())
    } else {
        strip_commas(s.drop_last()).push(s.last())
    }
}

proof fn lemma_strip_commas_append(a: Seq<char>, b: Seq<char>)
    ensures
        strip_commas(a + b) == strip_commas(a) + strip_commas(b),
    decreases b.len(),
{
    if b.len() == 0 {
        assert(a + b =~= a);
        assert(strip_commas(a) + strip_commas(b) =~= strip_commas(a));
    } else {
        lemma_strip_commas_append(a, b.drop_last());
        assert((a + b).drop_last() =~= a + b.drop_last());
        assert((a + b).last() == b.last());
        if b.last() == ',' {
        } else {
            assert(strip_commas(a) + strip_commas(b.drop_last()).push(b.last())
                =~= (strip_commas(a) + strip_commas(b.drop_last())).push(b.last()));
        }
    }
}

proof fn lemma_decimal_has_no_commas(n: nat)
    ensures
        strip_commas(decimal(n)) == decimal(n),
    decreases n,
{
    if n < 10 {
        assert(decimal(n).drop_last() =~= Seq::<char>::empty());
        assert(strip_commas(Seq::<char>::empty()) =~= Seq::<char>::empty());
        assert(digit_char(n) != ',');
        assert(Seq::<char>::empty().push(digit_char(n)) =~= decimal(n));
    } else {
        assert(digit_char(n % 10) != ',');
        lemma_decimal_has_no_commas(n / 10);
        assert(decimal(n).drop_last() =~= decimal(n / 10));
    }
}

proof fn lemma_decimal_split_thousands(n: nat)
    requires
        n >= 1000,
    ensures
        decimal(n) == decimal(n / 1000) + three_digits(n % 1000),
{
    let m = n % 1000;
    assert(n / 10 / 10 == n / 100) by (nonlinear_arith)
        requires n >= 1000;
    assert(n / 100 / 10 == n / 1000) by (nonlinear_arith)
        requires n >= 1000;
    assert((n / 100) % 10 == m / 100) by (nonlinear_arith)
        requires m == n % 1000, n >= 1000;
    assert((n / 10) % 10 == (m / 10) % 10) by (nonlinear_arith)
        requires m == n % 1000, n >= 1000;
    assert(n % 10 == m % 10) by (nonlinear_arith)
        requires m == n % 1000, n >= 1000;
    assert(n / 10 >= 10 && n / 100 >= 10);
    assert(decimal(n) =~= decimal(n / 10).push(digit_char(n % 10)));
    assert(decimal(n / 10) =~= decimal(n / 100).push(digit_char((n / 10) % 10)));
    assert(decimal(n / 100) =~= decimal(n / 1000).push(digit_char((n / 100) % 10)));
    assert(decimal(n) =~= decimal(n / 1000) + three_digits(m));
}

/// Law: the thousands separators are the only thing grouping adds — removing
/// the commas from the grouped form gives the plain decimal digits.
pub proof fn law_grouping_only_adds_commas(n: nat)
    ensures
        strip_commas(grouped(n)) == decimal(n),
    decreases n,
{
    if n < 1000 {
        lemma_decimal_has_no_commas(n);
    } else {
        let m = n % 1000;
        law_grouping_only_adds_commas(n / 1000);
        lemma_strip_commas_append(grouped(n / 1000), seq![',']);
        lemma_strip_commas_append(grouped(n / 1000) + seq![','], three_digits(m));
        assert(strip_commas(seq![',']) =~= Seq::<char>::empty()) by {
            assert(seq![','].drop_last() =~= Seq::<char>::empty());
            assert(strip_commas(Seq::<char>::empty()) =~= Seq::<char>::empty());
        }
        assert(strip_commas(three_digits(m)) == three_digits(m)) by {
            reveal_with_fuel(strip_commas, 4);
            let t = three_digits(m);
            assert(t[0] != ',' && t[1] != ',' && t[2] != ',');
            assert(t.drop_last().drop_last().drop_last() =~= Seq::<char>::empty());
            assert(t.drop_last().drop_last() =~= seq![t[0]]);
            assert(t.drop_last() =~= seq![t[0], t[1]]);
            assert(seq![t[0]] =~= Seq::<char>::empty().push(t[0]));
            assert(seq![t[0], t[1]] =~= seq![t[0]].push(t[1]));
            assert(t =~= seq![t[0], t[1]].push(t[2]));
        }
        lemma_decimal_split_thousands(n);
        assert(strip_commas(grouped(n)) =~= decimal(n / 1000) + three_digits(m));
    }
}


/// Whether the commas of `t` stand exactly at every fourth place counted
/// from the right — one before each group of three digits — and nowhere
/// else (in particular not in front).
pub open spec fn commas_before_each_three(t: Seq<char>) -> bool {
    &&& t.len() % 4 != 0
    &&& forall|i: int| 0 <= i < t.len() ==> (#[trigger] t[i] == ',' <==> (t.len() - i) % 4 == 0)
}

proof fn lemma_decimal_chars(n: nat)
    ensures
        forall|i: int| 0 <= i < decimal(n).len() ==> #[trigger] decimal(n)[i] != ',',
    decreases n,
{
    if n >= 10 {
        lemma_decimal_chars(n / 10);
        assert forall|i: int| 0 <= i < decimal(n).len() implies #[trigger] decimal(n)[i] != ',' by {
            if i < decimal(n / 10).len() {
                assert(decimal(n)[i] == decimal(n / 10)[i]);
            }
        }
    }
}

proof fn lemma_grouped_commas(n: nat)
    ensures
        commas_before_each_three(grouped(n)),
    decreases n,
{
    if n < 1000 {
        lemma_decimal_chars(n);
        lemma_decimal_len(n);
        assert(pow10(3) == 1000) by {
            reveal_with_fuel(pow10, 4);
        }
        lemma_decimal_len_bound(n, 3);
    } else {
        lemma_grouped_commas(n / 1000);
        let a = grouped(n / 1000);
        let t = grouped(n);
        let m = n % 1000;
        assert(t == a + seq![','] + three_digits(m));
        assert(t.len() == a.len() + 4);
        assert forall|i: int| 0 <= i < t.len() implies (#[trigger] t[i] == ',' <==> (t.len() - i) % 4 == 0) by {
            if i < a.len() {
                assert(t[i] == a[i]);
                assert((t.len() - i) % 4 == (a.len() - i) % 4);
            } else if i == a.len() {
                assert(t[i] == ',');
            } else {
                assert(t[i] == three_digits(m)[i - a.len() - 1]);
            }
        }
    }
}

/// Law: a formatted number is its decimal digits with a comma before each
/// group of three counted from the right, and a minus sign in front of a
/// negative number's formatted magnitude.
pub proof fn law_number_grouping(n: int)
    ensures
        n >= 0 ==> strip_commas(number_text(n)) == decimal(n as nat),
        n >= 0 ==> commas_before_each_three(number_text(n)),
        n < 0 ==> number_text(n) == seq!['-'] + number_text(-n),
{
    if n >= 0 {
        law_grouping_only_adds_commas(n as nat);
        lemma_grouped_commas(n as nat);
    }
}

/// Whether `c` occupies two terminal columns (CJK and full-width ranges).
pub open spec fn is_wide(c: char) -> bool {
    let u = c as u32;
    ||| 0x1100 <= u <= 0x115F
    ||| 0x2E80 <= u <= 0x303E
    ||| 0x3041 <= u <= 0x33FF
    ||| 0x3400 <= u <= 0x4DBF
    ||| 0x4E00 <= u <= 0xA4C6
    ||| 0xAC00 <= u <= 0xD7A3
    ||| 0xF900 <= u <= 0xFAFF
    ||| 0xFE30 <= u <= 0xFE4F
    ||| 0xFF01 <= u <= 0xFF60
    ||| 0xFFE0 <= u <= 0xFFE6
}

/// Terminal columns taken by one character.
pub open spec fn char_width(c: char) -> nat {
    if is_wide(c) { 2 } else { 1 }
}

/// Terminal columns taken by a character sequence: the sum of its
/// characters' widths.
pub open spec fn text_width(s: Seq<char>) -> nat
    decreases s.len(),
{
    if s.len() == 0 {
        0
    } else {
        text_width(s.drop_last()) + char_width(s.last())
    }
}

/// Law: the width of a concatenation is the sum of the widths.
pub proof fn law_width_of_concat(a: Seq<char>, b: Seq<char>)
    ensures
        text_width(a + b) == text_width(a) + text_width(b),
    decreases b.len(),
{
    if b.len() == 0 {
        assert(a + b =~= a);
    } else {
        law_width_of_concat(a, b.drop_last());
        assert((a + b).drop_last() =~= a + b.drop_last());
    }
}

fn char_width_exec(c: char) -> (w: usize)
    ensures
        w == char_width(c),
{
    let u = c as u32;
    if (0x1100 <= u && u <= 0x115F) || (0x2E80 <= u && u <= 0x303E) || (0x3041 <= u && u <= 0x33FF)
        || (0x3400 <= u && u <= 0x4DBF) || (0x4E00 <= u && u <= 0xA4C6) || (0xAC00 <= u && u
        <= 0xD7A3) || (0xF900 <= u && u <= 0xFAFF) || (0xFE30 <= u && u <= 0xFE4F) || (0xFF01
        <= u && u <= 0xFF60) || (0xFFE0 <= u && u <= 0xFFE6) {
        2
    } else {
        1
    }
}

/// Approximate terminal display width: CJK characters count as 2 columns.
pub fn display_width(s: &str) -> (w: usize)
    requires
        text_width(s@) <= usize::MAX,
    ensures
        w == text_width(s@),
{
    let n = s.unicode_len();
    let mut w: usize = 0;
    let mut i: usize = 0;
    while i < n
        invariant
            n == s@.len(),
            i <= n,
            text_width(s@) <= usize::MAX,
            w == text_width(s@.take(i as int)),
        decreases n - i,
    {
        let c = s.get_char(i);
        assert(s@.take(i + 1).drop_last() =~= s@.take(i as int));
        proof {
            law_width_of_concat(s@.take(i + 1), s@.skip(i + 1));
            assert(s@.take(i + 1) + s@.skip(i + 1) =~= s@);
        }
        w = w + char_width_exec(c);
        i = i + 1;
    }
    assert(s@.take(n as int) =~= s@);
    w
}


/// `s` followed by enough spaces to make its display width `target`
/// (unchanged when it is already at least that wide).
pub open spec fn padded_right(s: Seq<char>, target: nat) -> Seq<char> {
    if text_width(s) >= target {
        s
    } else {
        s + crate::text::repeated(' ', (target - text_width(s)) as nat)
    }
}

/// `s` preceded by spaces up to `width` characters (Rust's `{:>width}`).
pub open spec fn aligned_right(s: Seq<char>, width: nat) -> Seq<char> {
    if s.len() >= width {
        s
    } else {
        crate::text::repeated(' ', (width - s.len()) as nat) + s
    }
}

/// `s` followed by spaces up to `width` characters (Rust's `{:<width}`).
pub open spec fn aligned_left(s: Seq<char>, width: nat) -> Seq<char> {
    if s.len() >= width {
        s
    } else {
        s + crate::text::repeated(' ', (width - s.len()) as nat)
    }
}

proof fn lemma_width_of_spaces(n: nat)
    ensures
        text_width(crate::text::repeated(' ', n)) == n,
    decreases n,
{
    if n > 0 {
        lemma_width_of_spaces((n - 1) as nat);
        assert(crate::text::repeated(' ', n).drop_last() =~= crate::text::repeated(' ', (n - 1) as nat));
    }
}

/// Law: padding on the right yields exactly the larger of the text's
/// width and the target, and keeps the text as a prefix.
pub proof fn law_pad_right_width(s: Seq<char>, target: nat)
    ensures
        text_width(padded_right(s, target)) == if text_width(s) >= target {
            text_width(s)
        } else {
            target
        },
        padded_right(s, target).take(s.len() as int) == s,
{
    if text_width(s) < target {
        let k = (target - text_width(s)) as nat;
        law_width_of_concat(s, crate::text::repeated(' ', k));
        lemma_width_of_spaces(k);
    }
    assert(padded_right(s, target).take(s.len() as int) =~= s);
}

/// Pad `s` on the right with spaces until its display width equals `target`.
pub fn pad_right_to(s: &str, target: usize) -> (r: String)
    requires
        text_width(s@) <= usize::MAX,
    ensures
        r@ == padded_right(s@, target as nat),
{
    let w = display_width(s);
    let mut r = s.to_owned();
    if w < target {
        let spaces = repeat_char(' ', target - w);
        r.append(spaces.as_str());
    }
    r
}

/// `s` right-aligned in a field of `width` characters.
pub(crate) fn align_right(s: &str, width: usize) -> (r: String)
    ensures
        r@ == aligned_right(s@, width as nat),
{
    let n = s.unicode_len();
    let mut r = if n < width { repeat_char(' ', width - n) } else { String::new() };
    r.append(s);
    assert(r@ =~= aligned_right(s@, width as nat));
    r
}

/// `s` left-aligned in a field of `width` characters.
pub(crate) fn align_left(s: &str, width: usize) -> (r: String)
    ensures
        r@ == aligned_left(s@, width as nat),
{
    let n = s.unicode_len();
    let mut r = s.to_owned();
    if n < width {
        let spaces = repeat_char(' ', width - n);
        r.append(spaces.as_str());
    }
    r
}


/// Law: a text is at least as wide as its length and never wider than
/// twice its length.
pub proof fn law_width_bounds(s: Seq<char>)
    ensures
        s.len() <= text_width(s),
        text_width(s) <= 2 * s.len(),
    decreases s.len(),
{
    if s.len() > 0 {
        law_width_bounds(s.drop_last());
    }
}

spec fn pow10(k: nat) -> nat
    decreases k,
{
    if k == 0 { 1 } else { 10 * pow10((k - 1) as nat) }
}

proof fn lemma_decimal_len_bound(n: nat, k: nat)
    requires
        n < pow10(k),
        k >= 1,
    ensures
        decimal(n).len() <= k,
    decreases n,
{
    if n >= 10 {
        if k == 1 {
            assert(pow10(1) == 10) by {
                reveal_with_fuel(pow10, 2);
            }
        }
        assert(n / 10 < pow10((k - 1) as nat));
        lemma_decimal_len_bound(n / 10, (k - 1) as nat);
    }
}

proof fn lemma_decimal_len(n: nat)
    ensures
        decimal(n).len() >= 1,
        n <= 0x8000_0000_0000_0000 ==> decimal(n).len() <= 22,
{
    if n <= 0x8000_0000_0000_0000 {
        assert(pow10(22) == 10000000000000000000000) by {
            reveal_with_fuel(pow10, 23);
        }
        lemma_decimal_len_bound(n, 22);
    }
}

proof fn lemma_grouped_len(n: nat)
    ensures
        grouped(n).len() + 1 <= 2 * decimal(n).len(),
    decreases n,
{
    lemma_decimal_len(n);
    if n >= 1000 {
        lemma_grouped_len(n / 1000);
        lemma_decimal_split_thousands(n);
    }
}

/// A formatted `i64` is at most 45 characters long and at least one.
pub proof fn lemma_number_text_len(n: int)
    requires
        i64::MIN <= n <= i64::MAX,
    ensures
        1 <= number_text(n).len() <= 45,
{
    let m: nat = if n < 0 { (-n) as nat } else { n as nat };
    lemma_grouped_len(m);
    lemma_decimal_len(m);
}


/// What a command prints and the exit code it returns.
pub struct CommandOutput {
    pub stdout: String,
    pub stderr: String,
    pub code: i32,
}

/// `" " + aligned_right(number_text(v), align)`, padded to `col` columns.
pub open spec fn number_cell_text(v: i64, align: nat, col: nat) -> Seq<char> {
    padded_right(seq![' '] + aligned_right(number_text(v as int), align), col)
}

/// A table cell holding a right-aligned formatted number.
pub fn number_cell(v: i64, align: usize, col: usize) -> (r: String)
    requires
        align <= 100,
    ensures
        r@ == number_cell_text(v, align as nat, col as nat),
{
    proof {
        lemma_number_text_len(v as int);
    }
    let n = format_number(v);
    let a = align_right(n.as_str(), align);
    let mut raw = String::new();
    raw.append(" ");
    raw.append(a.as_str());
    proof {
        reveal_strlit(" ");
        law_width_bounds(raw@);
    }
    assert(raw@ =~= seq![' '] + aligned_right(number_text(v as int), align as nat));
    pad_right_to(raw.as_str(), col)
}

/// `s` padded to `col` columns, for a label that is at most 100 characters.
pub fn label_cell(s: &str, col: usize) -> (r: String)
    requires
        s@.len() <= 100,
    ensures
        r@ == padded_right(s@, col as nat),
{
    proof {
        law_width_bounds(s@);
    }
    pad_right_to(s, col)
}


/// The date a report is for: the one given, or today's local date.
pub fn target_date(date: Option<&str>) -> (r: String)
    ensures
        date matches Some(d) ==> r@ == d@,
        date is None ==> r@.len() >= 10,
{
    match date {
        Some(d) => d.to_owned(),
        None => crate::cli::clock::local_today(),
    }
}

/// The message printed to stderr for a database error.
pub open spec fn db_error_text(e: Seq<char>) -> Seq<char> {
    "Database error: "@ + e + "\n"@
}

pub(crate) fn db_error_output(e: &str, code: i32) -> (out: CommandOutput)
    ensures
        out.stdout@ == Seq::<char>::empty(),
        out.stderr@ == db_error_text(e@),
        out.code == code,
{
    let mut err = String::new();
    err.append("Database error: ");
    err.append(e);
    err.append("\n");
    CommandOutput { stdout: String::new(), stderr: err, code }
}

pub(crate) fn stdout_output(text: String, code: i32) -> (out: CommandOutput)
    ensures
        out.stdout@ == text@,
        out.stderr@ == Seq::<char>::empty(),
        out.code == code,
{
    CommandOutput { stdout: text, stderr: String::new(), code }
}


/// `" " + aligned_right(s, align)`, padded to `col` columns.
pub open spec fn text_cell_text(s: Seq<char>, align: nat, col: nat) -> Seq<char> {
    padded_right(seq![' '] + aligned_right(s, align), col)
}

/// A table cell holding `s` right-aligned.
pub fn text_cell(s: &str, align: usize, col: usize) -> (r: String)
    requires
        s@.len() <= 100,
        align <= 100,
    ensures
        r@ == text_cell_text(s@, align as nat, col as nat),
{
    let a = align_right(s, align);
    let mut raw = String::new();
    raw.append(" ");
    raw.append(a.as_str());
    proof {
        reveal_strlit(" ");
        law_width_bounds(raw@);
    }
    assert(raw@ =~= seq![' '] + aligned_right(s@, align as nat));
    pad_right_to(raw.as_str(), col)
}


/// Rust's `{}` rendering of an integer: optional minus sign, then digits.
pub open spec fn int_text(n: int) -> Seq<char> {
    if n < 0 {
        seq!['-'] + decimal((-n) as nat)
    } else {
        decimal(n as nat)
    }
}

/// Appends the `{}` rendering of `n`.
pub(crate) fn push_int(s: &mut String, n: i64)
    ensures
        final(s)@ == old(s)@ + int_text(n as int),
{
    if n < 0 {
        crate::text::push_char(s, '-');
        let magnitude: u64 = ((-(n + 1)) as u64) + 1;
        push_decimal(s, magnitude);
    } else {
        push_decimal(s, n as u64);
    }
    assert(final(s)@ =~= old(s)@ + int_text(n as int));
}

} // verus!
