//! Choosing how densely the status line is laid out, and framing the
//! rendered rows. Widths are the visual widths of the widgets of each
//! layout step, measured by the caller.

use vstd::prelude::*;
use vstd::string::*;
use crate::text::{join_texts, joined};

verus! {

/// Width of the separator between two widgets.
pub const SEPARATOR_WIDTH: usize = 3;

/// The last layout step of the info row.
pub const LAST_INFO_STEP: usize = 6;

/// The last layout step of the metric row.
pub const LAST_METRIC_STEP: usize = 11;

/// Sum of widths.
pub open spec fn total(ws: Seq<usize>) -> int
    decreases ws.len(),
{
    if ws.len() == 0 {
        0
    } else {
        total(ws.drop_last()) + ws.last()
    }
}

/// Width of a row of widgets with separators of width `sep` between
/// neighbours; zero for an empty row.
pub open spec fn row_width(ws: Seq<usize>, sep: int) -> int {
    if ws.len() == 0 {
        0
    } else {
        total(ws) + sep * (ws.len() - 1)
    }
}

proof fn lemma_total_prefix(ws: Seq<usize>, k: int)
    requires
        0 <= k <= ws.len(),
    ensures
        0 <= total(ws.take(k)) <= total(ws),
    decreases ws.len(),
{
    if k < ws.len() {
        assert(ws.drop_last().take(k) =~= ws.take(k));
        lemma_total_prefix(ws.drop_last(), k);
    } else {
        assert(ws.take(k) =~= ws);
    }
    if ws.len() > 0 {
        lemma_total_nonneg(ws.drop_last());
    }
}

proof fn lemma_total_nonneg(ws: Seq<usize>)
    ensures
        total(ws) >= 0,
    decreases ws.len(),
{
    if ws.len() > 0 {
        lemma_total_nonneg(ws.drop_last());
    }
}

/// Width of a row of widgets with separators of `sep_len` between them.
pub fn get_row_width(widths: &Vec<usize>, sep_len: usize) -> (res: usize)
    requires
        row_width(widths@, sep_len as int) <= usize::MAX,
    ensures
        res == row_width(widths@, sep_len as int),
{
    if widths.len() == 0 {
        return 0;
    }
    let mut sum: usize = 0;
    let mut i: usize = 0;
    proof {
        lemma_total_nonneg(widths@);
        assert(sep_len * (widths@.len() - 1) >= 0) by (nonlinear_arith)
            requires
                widths@.len() >= 1,
        ;
    }
    while i < widths.len()
        invariant
            i <= widths@.len(),
            widths@.len() > 0,
            total(widths@) + sep_len * (widths@.len() - 1) <= usize::MAX,
            total(widths@) >= 0,
            sep_len * (widths@.len() - 1) >= 0,
            sum == total(widths@.take(i as int)),
        decreases widths@.len() - i,
    {
        assert(widths@.take(i + 1).drop_last() =~= widths@.take(i as int));
        proof {
            lemma_total_prefix(widths@, i + 1);
        }
        sum = sum + widths[i];
        i = i + 1;
    }
    assert(widths@.take(widths@.len() as int) =~= widths@);
    let n = widths.len() - 1;
    assert(sep_len * n <= usize::MAX) by {
        assert(sep_len * n >= 0) by (nonlinear_arith)
            requires
                n >= 0,
        ;
    }
    sum + sep_len * n
}

/// The first info step and the first metric step tried for a terminal
/// width: the narrower the terminal, the denser the start.
pub open spec fn min_steps(cols: usize) -> (usize, usize) {
    if cols >= 160 {
        (0, 0)
    } else if cols >= 120 {
        (3, 0)
    } else if cols >= 80 {
        (3, 5)
    } else if cols >= 60 {
        (5, 6)
    } else {
        (6, 6)
    }
}

/// Room for the info row and for the metric row: the frame takes four
/// (info) and five (metric) columns on terminals of 80 columns or more,
/// two otherwise.
pub open spec fn max_widths(cols: usize) -> (int, int) {
    if cols >= 80 {
        (cols - 4, cols - 5)
    } else {
        (cols - 2, cols - 2)
    }
}

/// The first info and metric steps for a terminal width.
pub fn first_steps(cols: usize) -> (res: (usize, usize))
    ensures
        res == min_steps(cols),
{
    if cols >= 160 {
        (0, 0)
    } else if cols >= 120 {
        (3, 0)
    } else if cols >= 80 {
        (3, 5)
    } else if cols >= 60 {
        (5, 6)
    } else {
        (6, 6)
    }
}

/// Room for the info row and for the metric row on a terminal.
pub fn row_limits(cols: usize) -> (res: (usize, usize))
    requires
        cols >= 2,
    ensures
        res.0 == max_widths(cols).0,
        res.1 == max_widths(cols).1,
{
    if cols >= 80 {
        (cols - 4, cols - 5)
    } else {
        (cols - 2, cols - 2)
    }
}

/// How the status line is laid out.
pub enum Layout {
    /// One line holding the info and metric widgets of this step.
    SingleLine(usize),
    /// An info row at the first step and a metric row at the second.
    Rows(usize, usize),
}

/// The widgets of info step `s` followed by those of metric step `s`
/// fit on one line.
pub open spec fn single_line_fits(info: Seq<Seq<usize>>, metric: Seq<Seq<usize>>, s: int, limit: int) -> bool {
    row_width(info[s] + metric[s], SEPARATOR_WIDTH as int) <= limit
}

/// `s` is the first step in `lo..=hi` whose row fits `limit`, or `hi`
/// when none does.
pub open spec fn is_first_fit(rows: Seq<Seq<usize>>, lo: int, hi: int, limit: int, s: int) -> bool {
    &&& lo <= s <= hi
    &&& (row_width(rows[s], SEPARATOR_WIDTH as int) <= limit || s == hi)
    &&& forall|j: int| lo <= j < s ==> row_width(#[trigger] rows[j], SEPARATOR_WIDTH as int) > limit
}

/// The widths are small enough to be added up in a `usize`.
pub open spec fn widths_addable(info: Seq<Seq<usize>>, metric: Seq<Seq<usize>>) -> bool {
    &&& forall|s: int| 0 <= s < info.len() ==> row_width(#[trigger] info[s], SEPARATOR_WIDTH as int) <= usize::MAX
    &&& forall|s: int| 0 <= s < metric.len() ==> row_width(#[trigger] metric[s], SEPARATOR_WIDTH as int) <= usize::MAX
    &&& forall|s: int| 0 <= s <= 2 ==> row_width(#[trigger] (info[s] + metric[s]), SEPARATOR_WIDTH as int) <= usize::MAX
}

/// The layout the status line takes. On terminals of 160 columns or more
/// one line is used when the widgets of one of the steps 0 to 2 fit, the
/// first such step; otherwise the info row takes its first fitting step
/// from its first step on (else step 6) and the metric row likewise (else
/// step 11).
pub open spec fn is_chosen_layout(
    cols: usize,
    info: Seq<Seq<usize>>,
    metric: Seq<Seq<usize>>,
    res: Layout,
) -> bool {
    let (lo_info, lo_metric) = min_steps(cols);
    let (max_w, max_metric_w) = max_widths(cols);
    let single = cols >= 160 && exists|s: int| 0 <= s <= 2 && #[trigger] single_line_fits(info, metric, s, max_w);
    match res {
        Layout::SingleLine(s) => {
            &&& single
            &&& s <= 2
            &&& single_line_fits(info, metric, s as int, max_w)
            &&& forall|j: int| 0 <= j < s ==> !#[trigger] single_line_fits(info, metric, j, max_w)
        },
        Layout::Rows(i, m) => {
            &&& !single
            &&& is_first_fit(info, lo_info as int, LAST_INFO_STEP as int, max_w, i as int)
            &&& is_first_fit(metric, lo_metric as int, LAST_METRIC_STEP as int, max_metric_w, m as int)
        },
    }
}

/// Concatenates two width lists.
fn concat_widths(a: &Vec<usize>, b: &Vec<usize>) -> (res: Vec<usize>)
    ensures
        res@ == a@ + b@,
{
    let mut res: Vec<usize> = Vec::new();
    let mut i: usize = 0;
    while i < a.len()
        invariant
            i <= a@.len(),
            res@ == a@.take(i as int),
        decreases a@.len() - i,
    {
        res.push(a[i]);
        assert(res@ =~= a@.take(i + 1));
        i = i + 1;
    }
    let mut j: usize = 0;
    assert(a@.take(a@.len() as int) =~= a@);
    while j < b.len()
        invariant
            j <= b@.len(),
            res@ == a@ + b@.take(j as int),
        decreases b@.len() - j,
    {
        res.push(b[j]);
        assert(res@ =~= a@ + b@.take(j + 1));
        j = j + 1;
    }
    assert(b@.take(b@.len() as int) =~= b@);
    res
}

/// The first step in `lo..=hi` whose row fits `limit`, else `hi`.
fn first_fit(rows: &Vec<Vec<usize>>, lo: usize, hi: usize, limit: usize) -> (res: usize)
    requires
        lo <= hi < rows@.len(),
        forall|s: int| 0 <= s < rows@.len() ==> row_width(#[trigger] rows@[s]@, SEPARATOR_WIDTH as int) <= usize::MAX,
    ensures
        is_first_fit(rows@.map_values(|r: Vec<usize>| r@), lo as int, hi as int, limit as int, res as int),
{
    let ghost views = rows@.map_values(|r: Vec<usize>| r@);
    let mut s = lo;
    while s < hi
        invariant
            lo <= s <= hi,
            hi < rows@.len(),
            views == rows@.map_values(|r: Vec<usize>| r@),
            forall|t: int| 0 <= t < rows@.len() ==> row_width(#[trigger] rows@[t]@, SEPARATOR_WIDTH as int) <= usize::MAX,
            forall|j: int| lo <= j < s ==> row_width(#[trigger] views[j], SEPARATOR_WIDTH as int) > limit,
        decreases hi - s,
    {
        assert(views[s as int] == rows@[s as int]@);
        if get_row_width(&rows[s], SEPARATOR_WIDTH) <= limit {
            return s;
        }
        s = s + 1;
    }
    s
}

/// Chooses the layout of the status line from the widget widths of the
/// info steps 0 to 6 and the metric steps 0 to 11.
pub fn plan_layout(cols: usize, info: &Vec<Vec<usize>>, metric: &Vec<Vec<usize>>) -> (res: Layout)
    requires
        cols >= 2,
        info@.len() == 7,
        metric@.len() == 12,
        widths_addable(info@.map_values(|r: Vec<usize>| r@), metric@.map_values(|r: Vec<usize>| r@)),
    ensures
        is_chosen_layout(cols, info@.map_values(|r: Vec<usize>| r@), metric@.map_values(|r: Vec<usize>| r@), res),
        cols < 160 ==> res is Rows,
{
    let ghost iv = info@.map_values(|r: Vec<usize>| r@);
    let ghost mv = metric@.map_values(|r: Vec<usize>| r@);
    let (lo_info, lo_metric) = first_steps(cols);
    let (max_w, max_metric_w) = row_limits(cols);
    if cols >= 160 {
        let mut s: usize = 0;
        while s <= 2
            invariant
                s <= 3,
                cols >= 160,
                max_w == max_widths(cols).0,
                info@.len() == 7,
                metric@.len() == 12,
                iv == info@.map_values(|r: Vec<usize>| r@),
                mv == metric@.map_values(|r: Vec<usize>| r@),
                widths_addable(iv, mv),
                forall|j: int| 0 <= j < s ==> !#[trigger] single_line_fits(iv, mv, j, max_w as int),
            decreases 3 - s,
        {
            let combined = concat_widths(&info[s], &metric[s]);
            assert(combined@ == iv[s as int] + mv[s as int]);
            assert(row_width(#[trigger] (iv[s as int] + mv[s as int]), SEPARATOR_WIDTH as int) <= usize::MAX);
            if get_row_width(&combined, SEPARATOR_WIDTH) <= max_w {
                assert(single_line_fits(iv, mv, s as int, max_w as int));
                return Layout::SingleLine(s);
            }
            s = s + 1;
        }
    }
    proof {
        assert forall|s: int| 0 <= s < info@.len() implies row_width(#[trigger] info@[s]@, SEPARATOR_WIDTH as int) <= usize::MAX by {
            assert(iv[s] == info@[s]@);
        }
        assert forall|s: int| 0 <= s < metric@.len() implies row_width(#[trigger] metric@[s]@, SEPARATOR_WIDTH as int) <= usize::MAX by {
            assert(mv[s] == metric@[s]@);
        }
    }
    let i = first_fit(info, lo_info, LAST_INFO_STEP, max_w);
    let m = first_fit(metric, lo_metric, LAST_METRIC_STEP, max_metric_w);
    Layout::Rows(i, m)
}

/// The frame corner in front of row `i` of `n`: top, middle or bottom.
pub open spec fn corner(i: int, n: int) -> Seq<char> {
    if i == 0 {
        "\u{256d}\u{2500}"@
    } else if i == n - 1 {
        "\u{2570}\u{2500}"@
    } else {
        "\u{251c}\u{2500}"@
    }
}

/// The printed lines: on terminals of 80 columns or more each row gets a
/// frame corner in the border colour; narrower terminals print the rows
/// as they are.
pub open spec fn framed_rows(rows: Seq<Seq<char>>, cols: usize, border: Seq<char>, reset: Seq<char>) -> Seq<Seq<char>> {
    if cols >= 80 {
        Seq::new(rows.len(), |i: int| border + corner(i, rows.len() as int) + reset + " "@ + rows[i])
    } else {
        rows
    }
}

/// Frames the rendered rows.
pub fn frame_rows(rows: &Vec<String>, cols: usize, border: &str, reset: &str) -> (res: Vec<String>)
    ensures
        res@.map_values(|s: String| s@) == framed_rows(rows@.map_values(|s: String| s@), cols, border@, reset@),
{
    let ghost views = rows@.map_values(|s: String| s@);
    let mut res: Vec<String> = Vec::new();
    let n = rows.len();
    let mut i: usize = 0;
    while i < n
        invariant
            i <= n,
            n == rows@.len(),
            views == rows@.map_values(|s: String| s@),
            res@.len() == i,
            forall|j: int| 0 <= j < i ==> #[trigger] res@[j]@ == (if cols >= 80 {
                border@ + corner(j, n as int) + reset@ + " "@ + views[j]
            } else {
                views[j]
            }),
        decreases n - i,
    {
        let line = if cols >= 80 {
            let c: &str = if i == 0 {
                "\u{256d}\u{2500}"
            } else if i == n - 1 {
                "\u{2570}\u{2500}"
            } else {
                "\u{251c}\u{2500}"
            };
            let mut s = String::from_str(border);
            s.append(c);
            s.append(reset);
            s.append(" ");
            s.append(rows[i].as_str());
            s
        } else {
            rows[i].clone()
        };
        res.push(line);
        i = i + 1;
    }
    assert(res@.map_values(|s: String| s@) =~= framed_rows(views, cols, border@, reset@));
    res
}


/// The rows a layout renders, each the widget texts joined with `sep`:
/// one row holding the info and metric widgets of the step, or the info
/// row followed by the metric row when the latter has widgets.
pub open spec fn rendered_rows(
    layout: Layout,
    info: Seq<Seq<Seq<char>>>,
    metric: Seq<Seq<Seq<char>>>,
    sep: Seq<char>,
) -> Seq<Seq<char>> {
    match layout {
        Layout::SingleLine(s) => seq![joined(info[s as int] + metric[s as int], sep)],
        Layout::Rows(i, m) => if metric[m as int].len() > 0 {
            seq![joined(info[i as int], sep), joined(metric[m as int], sep)]
        } else {
            seq![joined(info[i as int], sep)]
        },
    }
}

/// Joins the widget texts of the rows that a layout renders. `info` and
/// `metric` hold the widget texts of every info and metric step.
pub fn render_rows(layout: &Layout, info: &Vec<Vec<String>>, metric: &Vec<Vec<String>>, sep: &str) -> (res: Vec<String>)
    requires
        match *layout {
            Layout::SingleLine(s) => s < info@.len() && s < metric@.len(),
            Layout::Rows(i, m) => i < info@.len() && m < metric@.len(),
        },
    ensures
        res@.map_values(|r: String| r@) == rendered_rows(
            *layout,
            info@.map_values(|ws: Vec<String>| ws@.map_values(|w: String| w@)),
            metric@.map_values(|ws: Vec<String>| ws@.map_values(|w: String| w@)),
            sep@,
        ),
{
    let ghost iv = info@.map_values(|ws: Vec<String>| ws@.map_values(|w: String| w@));
    let ghost mv = metric@.map_values(|ws: Vec<String>| ws@.map_values(|w: String| w@));
    let mut res: Vec<String> = Vec::new();
    match layout {
        Layout::SingleLine(s) => {
            let s = *s;
            let mut combined: Vec<String> = Vec::new();
            let a = &info[s];
            let b = &metric[s];
            let mut k: usize = 0;
            while k < a.len()
                invariant
                    k <= a@.len(),
                    combined@.map_values(|w: String| w@) == a@.map_values(|w: String| w@).take(k as int),
                decreases a@.len() - k,
            {
                let ghost before = combined@;
                let w = a[k].clone();
                assert(w@ == a@[k as int]@);
                combined.push(w);
                assert(combined@.map_values(|w: String| w@) =~= before.map_values(|w: String| w@).push(a@[k as int]@));
                assert(combined@.map_values(|w: String| w@) =~= a@.map_values(|w: String| w@).take(k + 1));
                k = k + 1;
            }
            assert(a@.map_values(|w: String| w@).take(a@.len() as int) =~= a@.map_values(|w: String| w@));
            let mut j: usize = 0;
            while j < b.len()
                invariant
                    j <= b@.len(),
                    combined@.map_values(|w: String| w@) == a@.map_values(|w: String| w@) + b@.map_values(
                        |w: String| w@,
                    ).take(j as int),
                decreases b@.len() - j,
            {
                let ghost before = combined@;
                let w = b[j].clone();
                assert(w@ == b@[j as int]@);
                combined.push(w);
                assert(combined@.map_values(|w: String| w@) =~= before.map_values(|w: String| w@).push(b@[j as int]@));
                assert(combined@.map_values(|w: String| w@) =~= a@.map_values(|w: String| w@) + b@.map_values(
                    |w: String| w@,
                ).take(j + 1));
                j = j + 1;
            }
            assert(b@.map_values(|w: String| w@).take(b@.len() as int) =~= b@.map_values(|w: String| w@));
            assert(iv[s as int] == a@.map_values(|w: String| w@));
            assert(mv[s as int] == b@.map_values(|w: String| w@));
            res.push(join_texts(&combined, sep));
        },
        Layout::Rows(i, m) => {
            let i = *i;
            let m = *m;
            assert(iv[i as int] == info@[i as int]@.map_values(|w: String| w@));
            assert(mv[m as int] == metric@[m as int]@.map_values(|w: String| w@));
            res.push(join_texts(&info[i], sep));
            if metric[m].len() > 0 {
                res.push(join_texts(&metric[m], sep));
            }
        },
    }
    assert(res@.map_values(|r: String| r@) =~= rendered_rows(*layout, iv, mv, sep@));
    res
}


/// A single line is only ever chosen on terminals of 160 columns or
/// more: on narrower ones the status line always has an info row and a
/// metric row.
pub proof fn lemma_single_line_needs_wide_terminal(
    cols: usize,
    info: Seq<Seq<usize>>,
    metric: Seq<Seq<usize>>,
    res: Layout,
)
    requires
        is_chosen_layout(cols, info, metric, res),
        cols < 160,
    ensures
        res is Rows,
{
}

/// On a terminal of 160 columns or more, when the widgets of both rows at
/// step 0 fit on one line of `cols - 4` columns, that one line is chosen.
pub proof fn lemma_wide_terminal_fitting_line_is_single(
    cols: usize,
    info: Seq<Seq<usize>>,
    metric: Seq<Seq<usize>>,
    res: Layout,
)
    requires
        is_chosen_layout(cols, info, metric, res),
        cols >= 160,
        row_width(info[0] + metric[0], 3) <= cols - 4,
    ensures
        res == Layout::SingleLine(0),
{
    assert(single_line_fits(info, metric, 0, max_widths(cols).0));
}

/// On terminals of 80 columns or more a frame of `n >= 2` rows opens with
/// `╭─` on the first row, closes with `╰─` on the last, and puts `├─` in
/// front of every row in between; each corner is in the border colour
/// and followed by the reset code, a space and the row.
pub proof fn lemma_frame_corners(rows: Seq<Seq<char>>, cols: usize, border: Seq<char>, reset: Seq<char>, i: int)
    requires
        cols >= 80,
        rows.len() >= 2,
        0 <= i < rows.len(),
    ensures
        framed_rows(rows, cols, border, reset).len() == rows.len(),
        i == 0 ==> framed_rows(rows, cols, border, reset)[i] == border + "\u{256d}\u{2500}"@ + reset + " "@ + rows[i],
        i == rows.len() - 1 ==> framed_rows(rows, cols, border, reset)[i] == border + "\u{2570}\u{2500}"@ + reset + " "@
            + rows[i],
        0 < i < rows.len() - 1 ==> framed_rows(rows, cols, border, reset)[i] == border + "\u{251c}\u{2500}"@ + reset + " "@
            + rows[i],
{
}

/// A single row is framed with the opening corner; narrower terminals
/// print the rows without a frame.
pub proof fn lemma_frame_single_and_narrow(rows: Seq<Seq<char>>, cols: usize, border: Seq<char>, reset: Seq<char>)
    ensures
        cols >= 80 && rows.len() == 1 ==> framed_rows(rows, cols, border, reset) == seq![
            border + "\u{256d}\u{2500}"@ + reset + " "@ + rows[0],
        ],
        cols < 80 ==> framed_rows(rows, cols, border, reset) == rows,
{
    if cols >= 80 && rows.len() == 1 {
        assert(framed_rows(rows, cols, border, reset) =~= seq![border + "\u{256d}\u{2500}"@ + reset + " "@ + rows[0]]);
    }
}


/// The rows of a two-row layout: the info step is at least 3 below 160
/// columns, 5 below 80 and 6 below 60, and at most 6; the metric step is
/// at least 5 below 120 columns and 6 below 80, and at most 11. A row
/// whose step is not the last one fits its room: `cols - 4` (info) and
/// `cols - 5` (metric) columns from 80 columns on, `cols - 2` below; and
/// every earlier step tried did not fit.
pub proof fn lemma_rows_steps(cols: usize, info: Seq<Seq<usize>>, metric: Seq<Seq<usize>>, i: usize, m: usize)
    requires
        is_chosen_layout(cols, info, metric, Layout::Rows(i, m)),
        cols >= 2,
    ensures
        i <= 6,
        m <= 11,
        cols < 160 ==> i >= 3,
        cols < 80 ==> i >= 5,
        cols < 60 ==> i == 6,
        cols < 120 ==> m >= 5,
        cols < 80 ==> m >= 6,
        cols >= 80 && i < 6 ==> row_width(info[i as int], 3) <= cols - 4,
        cols >= 80 && m < 11 ==> row_width(metric[m as int], 3) <= cols - 5,
        cols < 80 && i < 6 ==> row_width(info[i as int], 3) <= cols - 2,
        cols < 80 && m < 11 ==> row_width(metric[m as int], 3) <= cols - 2,
        forall|j: int| #![trigger info[j]] (if cols >= 160 { 0int } else if cols >= 80 { 3int } else if cols >= 60 { 5int } else { 6int }) <= j < i
            ==> row_width(info[j], 3) > (if cols >= 80 { cols - 4int } else { cols - 2int }),
        forall|j: int| #![trigger metric[j]] (if cols >= 120 { 0int } else if cols >= 80 { 5int } else { 6int }) <= j < m
            ==> row_width(metric[j], 3) > (if cols >= 80 { cols - 5int } else { cols - 2int }),
{
}

} // verus!

