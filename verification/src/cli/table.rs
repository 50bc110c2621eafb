//! Box-drawing table lines shared by the renderers.

use vstd::prelude::*;

use crate::text::repeat_char;

verus! {

/// Runs of `─` of the given widths, separated by `mid`.
pub open spec fn rule_body(mid: Seq<char>, widths: Seq<usize>) -> Seq<char>
    decreases widths.len(),
{
    if widths.len() == 0 {
        Seq::empty()
    } else if widths.len() == 1 {
        crate::text::repeated('─', widths[0] as nat)
    } else {
        rule_body(mid, widths.drop_last()) + mid + crate::text::repeated('─', widths.last() as nat)
    }
}

/// A horizontal rule line such as `├───┼──┤`, ending with a newline.
pub open spec fn rule_text(left: Seq<char>, mid: Seq<char>, right: Seq<char>, widths: Seq<usize>) -> Seq<char> {
    left + rule_body(mid, widths) + right + "\n"@
}

/// The cells joined by `│`, each followed by a `│`.
pub open spec fn cells_body(cells: Seq<Seq<char>>) -> Seq<char>
    decreases cells.len(),
{
    if cells.len() == 0 {
        Seq::empty()
    } else {
        cells_body(cells.drop_last()) + cells.last() + "│"@
    }
}

/// A table line `│a│b│…│` ending with a newline.
pub open spec fn row_text(cells: Seq<Seq<char>>) -> Seq<char> {
    "│"@ + cells_body(cells) + "\n"@
}

/// The views of a list of strings.
pub open spec fn views(cells: Seq<String>) -> Seq<Seq<char>> {
    cells.map_values(|c: String| c@)
}

/// A horizontal rule line built from `─` runs of the given widths.
pub fn rule_line(left: &str, mid: &str, right: &str, widths: &[usize]) -> (r: String)
    ensures
        r@ == rule_text(left@, mid@, right@, widths@),
{
    let mut body = String::new();
    let mut i: usize = 0;
    while i < widths.len()
        invariant
            i <= widths@.len(),
            body@ == rule_body(mid@, widths@.take(i as int)),
        decreases widths@.len() - i,
    {
        assert(widths@.take(i + 1).drop_last() =~= widths@.take(i as int));
        if i > 0 {
            body.append(mid);
        }
        body.append(repeat_char('─', widths[i]).as_str());
        i = i + 1;
        if i == 1 {
            assert(body@ =~= rule_body(mid@, widths@.take(i as int)));
        } else {
            assert(body@ =~= rule_body(mid@, widths@.take(i as int)));
        }
    }
    assert(widths@.take(widths@.len() as int) =~= widths@);
    let mut r = String::new();
    r.append(left);
    r.append(body.as_str());
    r.append(right);
    r.append("\n");
    r
}

/// A table line with the given cell contents.
pub fn row_line(cells: &Vec<String>) -> (r: String)
    ensures
        r@ == row_text(views(cells@)),
{
    let mut body = String::new();
    let mut i: usize = 0;
    while i < cells.len()
        invariant
            i <= cells@.len(),
            body@ == cells_body(views(cells@).take(i as int)),
        decreases cells@.len() - i,
    {
        assert(views(cells@).take(i + 1).drop_last() =~= views(cells@).take(i as int));
        body.append(cells[i].as_str());
        body.append("│");
        i = i + 1;
    }
    assert(views(cells@).take(cells@.len() as int) =~= views(cells@));
    let mut r = String::new();
    r.append("│");
    r.append(body.as_str());
    r.append("\n");
    r
}

} // verus!
