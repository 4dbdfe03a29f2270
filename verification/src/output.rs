//! Tabular output: the row type that list commands assemble, and the layout
//! of a whole table as plain text lines. Rendering the lines (color, the
//! terminal) is the presentation layer's business; the layout itself — column
//! widths, padding, joining — is computed here, pinned to an exact spec.
//!
//! Cell widths count characters.

use vstd::prelude::*;

verus! {

/// A run of spaces.
pub open spec fn spec_spaces(n: nat) -> Seq<char> {
    Seq::new(n, |i: int| ' ')
}

/// A run of dashes.
pub open spec fn spec_dashes(n: nat) -> Seq<char> {
    Seq::new(n, |i: int| '-')
}

/// A cell padded on the right to the column width; a cell at least as wide
/// as the column stands as it is.
pub open spec fn spec_pad_right(s: Seq<char>, w: nat) -> Seq<char> {
    if s.len() >= w {
        s
    } else {
        s + spec_spaces((w - s.len()) as nat)
    }
}

/// Cells from position `i` on, joined with a two-space gap.
pub open spec fn spec_joined_from(cells: Seq<Seq<char>>, i: int) -> Seq<char>
    decreases cells.len() - i,
{
    if !(0 <= i < cells.len()) {
        Seq::empty()
    } else if i == cells.len() - 1 {
        cells[i]
    } else {
        cells[i] + "  "@ + spec_joined_from(cells, i + 1)
    }
}

/// All cells joined with a two-space gap.
pub open spec fn spec_joined(cells: Seq<Seq<char>>) -> Seq<char> {
    spec_joined_from(cells, 0)
}

/// Pads a cell on the right to the column width; see `spec_pad_right`.
fn pad_right(s: &str, w: usize) -> (r: String)
    ensures
        r@ == spec_pad_right(s@, w as nat),
{
    let n = s.unicode_len();
    let mut out = s.to_owned();
    let mut j = n;
    proof {
        assert(out@ + spec_spaces(0) =~= out@);
    }
    while j < w
        invariant
            n == s@.len(),
            j >= n,
            n >= w ==> j == n,
            n < w ==> j <= w,
            out@ =~= s@ + spec_spaces((j - n) as nat),
        decreases w - j,
    {
        let ghost before = out@;
        out.append(" ");
        j = j + 1;
        proof {
            reveal_strlit(" ");
            assert(" "@ =~= seq![' ']);
            assert(spec_spaces((j - n) as nat) =~= spec_spaces((j - 1 - n) as nat) + seq![' ']);
            assert(s@ + (spec_spaces((j - 1 - n) as nat) + seq![' ']) =~= (s@ + spec_spaces(
                (j - 1 - n) as nat,
            )) + seq![' ']);
        }
    }
    proof {
        if n >= w {
            assert(out@ =~= s@ + spec_spaces(0));
            assert(s@ + spec_spaces(0) =~= s@);
        }
    }
    out
}

/// A column's separator segment: as many dashes as the column is wide; see
/// `spec_dashes`.
fn dashes(w: usize) -> (r: String)
    ensures
        r@ == spec_dashes(w as nat),
{
    let mut out = String::new();
    let mut j: usize = 0;
    proof {
        assert(out@ =~= spec_spaces(0));
        assert(out@ =~= spec_dashes(0));
    }
    while j < w
        invariant
            j <= w || j == 0,
            out@ =~= spec_dashes(j as nat),
        decreases w - j,
    {
        out.append("-");
        j = j + 1;
        proof {
            reveal_strlit("-");
            assert(spec_dashes(j as nat) =~= spec_dashes((j - 1) as nat) + "-"@);
        }
    }
    out
}

/// Joins cells with a two-space gap; see `spec_joined`.
fn join_cells(cells: &Vec<String>) -> (r: String)
    ensures
        r@ == spec_joined(cells.deep_view()),
{
    let ghost all = cells.deep_view();
    let mut out = String::new();
    let mut i: usize = 0;
    while i < cells.len()
        invariant
            all == cells.deep_view(),
            i <= all.len(),
            spec_joined(all) == out@ + (if i == 0 {
                spec_joined_from(all, 0)
            } else if i < all.len() {
                "  "@ + spec_joined_from(all, i as int)
            } else {
                Seq::<char>::empty()
            }),
        decreases all.len() - i,
    {
        let ghost out0 = out@;
        if i > 0 {
            out.append("  ");
        }
        out.append(cells[i].as_str());
        i = i + 1;
        proof {
            let k = i - 1;
            assert(all[k as int] == cells@[k as int]@);
            if k == 0 {
                assert(out@ =~= out0 + all[0]);
                if i < all.len() {
                    assert(spec_joined_from(all, 0) =~= all[0] + ("  "@ + spec_joined_from(
                        all,
                        1,
                    )));
                    assert(out0 + (all[0] + ("  "@ + spec_joined_from(all, 1))) =~= (out0 + all[0])
                        + ("  "@ + spec_joined_from(all, 1)));
                } else {
                    assert(spec_joined_from(all, 0) =~= all[0]);
                    assert(out0 + all[0] =~= (out0 + all[0]) + Seq::<char>::empty());
                }
            } else {
                assert(out@ =~= out0 + ("  "@ + all[k as int]));
                if i < all.len() {
                    assert(spec_joined_from(all, k as int) =~= all[k as int] + ("  "@
                        + spec_joined_from(all, i as int)));
                    assert(out0 + ("  "@ + (all[k as int] + ("  "@ + spec_joined_from(
                        all,
                        i as int,
                    )))) =~= (out0 + ("  "@ + all[k as int])) + ("  "@ + spec_joined_from(
                        all,
                        i as int,
                    )));
                } else {
                    assert(spec_joined_from(all, k as int) =~= all[k as int]);
                    assert(out0 + ("  "@ + all[k as int]) =~= (out0 + ("  "@ + all[k as int]))
                        + Seq::<char>::empty());
                }
            }
        }
    }
    proof {
        if all.len() == 0 {
            assert(spec_joined(all) =~= Seq::<char>::empty());
            assert(out@ =~= Seq::<char>::empty());
        } else {
            assert(out@ + Seq::<char>::empty() =~= out@);
        }
    }
    out
}

/// One row of a table: its cells in column order.
pub struct TableRow {
    pub columns: Vec<String>,
}

impl DeepView for TableRow {
    type V = Seq<Seq<char>>;

    open spec fn deep_view(&self) -> Seq<Seq<char>> {
        self.columns.deep_view()
    }
}

impl TableRow {
    /// A row holding exactly the given cells.
    pub fn new(columns: Vec<String>) -> (r: TableRow)
        ensures
            r.columns == columns,
            r.deep_view() == columns.deep_view(),
    {
        TableRow { columns }
    }
}

/// The width of column `i`: the widest of the header and of every row cell
/// that the column has.
pub open spec fn spec_col_width(
    headers: Seq<Seq<char>>,
    rows: Seq<Seq<Seq<char>>>,
    i: int,
) -> nat
    decreases rows.len(),
{
    if rows.len() == 0 {
        headers[i].len()
    } else {
        let w = spec_col_width(headers, rows.drop_last(), i);
        let row = rows.last();
        if 0 <= i < row.len() && row[i].len() > w {
            row[i].len()
        } else {
            w
        }
    }
}

/// One line of a laid-out table: each cell padded to its column's width;
/// a cell beyond the last column keeps its own width.
pub open spec fn spec_row_line(cells: Seq<Seq<char>>, widths: Seq<nat>) -> Seq<char> {
    spec_joined(
        Seq::new(
            cells.len(),
            |i: int|
                spec_pad_right(
                    cells[i],
                    if 0 <= i < widths.len() {
                        widths[i]
                    } else {
                        cells[i].len()
                    },
                ),
        ),
    )
}

/// The separator line: one dash run per column.
pub open spec fn spec_sep_line(widths: Seq<nat>) -> Seq<char> {
    spec_joined(Seq::new(widths.len(), |i: int| spec_dashes(widths[i])))
}

/// A whole table as text lines: the padded header, the separator, then one
/// line per row; a table without rows is the single no-data line.
pub open spec fn spec_table_lines(headers: Seq<Seq<char>>, rows: Seq<Seq<Seq<char>>>) -> Seq<
    Seq<char>,
> {
    if rows.len() == 0 {
        seq!["(no data)"@]
    } else {
        let widths = Seq::new(headers.len(), |i: int| spec_col_width(headers, rows, i));
        seq![spec_row_line(headers, widths), spec_sep_line(widths)] + Seq::new(
            rows.len(),
            |i: int| spec_row_line(rows[i], widths),
        )
    }
}

/// Computes every column's width; see `spec_col_width`.
fn col_widths(headers: &Vec<String>, rows: &Vec<TableRow>) -> (r: Vec<usize>)
    ensures
        r@.len() == headers@.len(),
        forall|j: int|
            0 <= j < headers@.len() ==> #[trigger] r@[j] as nat == spec_col_width(
                headers.deep_view(),
                rows.deep_view(),
                j,
            ),
{
    let ghost hv = headers.deep_view();
    let ghost rv = rows.deep_view();
    let mut widths: Vec<usize> = Vec::new();
    let mut i: usize = 0;
    while i < headers.len()
        invariant
            hv == headers.deep_view(),
            i <= hv.len(),
            widths@.len() == i,
            forall|j: int| 0 <= j < i as int ==> #[trigger] widths@[j] as nat == hv[j].len(),
        decreases hv.len() - i,
    {
        let w = headers[i].as_str().unicode_len();
        widths.push(w);
        i = i + 1;
    }
    let mut k: usize = 0;
    proof {
        assert(rv.subrange(0, 0) =~= Seq::<Seq<Seq<char>>>::empty());
    }
    while k < rows.len()
        invariant
            hv == headers.deep_view(),
            rv == rows.deep_view(),
            k <= rv.len(),
            widths@.len() == hv.len(),
            forall|j: int|
                0 <= j < hv.len() ==> #[trigger] widths@[j] as nat == spec_col_width(
                    hv,
                    rv.subrange(0, k as int),
                    j,
                ),
        decreases rv.len() - k,
    {
        let ghost prefix = rv.subrange(0, k as int);
        let row = &rows[k];
        let ghost rowv = rv[k as int];
        proof {
            assert(rowv == row.deep_view());
            assert(rv.subrange(0, k + 1).drop_last() =~= prefix);
            assert(rv.subrange(0, k + 1).last() == rowv);
        }
        let mut j: usize = 0;
        while j < widths.len()
            invariant
                hv == headers.deep_view(),
                rv == rows.deep_view(),
                k < rv.len(),
                rowv == rv[k as int],
                rowv == row.deep_view(),
                widths@.len() == hv.len(),
                j <= widths@.len(),
                forall|m: int|
                    j as int <= m < hv.len() ==> #[trigger] widths@[m] as nat == spec_col_width(
                        hv,
                        rv.subrange(0, k as int),
                        m,
                    ),
                forall|m: int|
                    0 <= m < j as int ==> #[trigger] widths@[m] as nat == spec_col_width(
                        hv,
                        rv.subrange(0, k as int + 1),
                        m,
                    ),
            decreases widths@.len() - j,
        {
            proof {
                assert(rv.subrange(0, k + 1).drop_last() =~= rv.subrange(0, k as int));
                assert(rv.subrange(0, k + 1).last() == rowv);
            }
            if j < row.columns.len() {
                let cell_width = row.columns[j].as_str().unicode_len();
                proof {
                    assert(rowv[j as int] == row.columns@[j as int]@);
                }
                if cell_width > widths[j] {
                    widths[j] = cell_width;
                }
            }
            j = j + 1;
        }
        k = k + 1;
    }
    proof {
        assert(rv.subrange(0, rv.len() as int) =~= rv);
    }
    widths
}

/// Lays out a whole table as text lines; see `spec_table_lines`. How the
/// lines are rendered — color, emphasis — is left to the caller.
pub fn table_lines(headers: &Vec<String>, rows: &Vec<TableRow>) -> (r: Vec<String>)
    ensures
        r.deep_view() == spec_table_lines(headers.deep_view(), rows.deep_view()),
{
    let ghost hv = headers.deep_view();
    let ghost rv = rows.deep_view();
    if rows.len() == 0 {
        let mut lines: Vec<String> = Vec::new();
        lines.push("(no data)".to_owned());
        proof {
            assert(lines.deep_view() =~= seq!["(no data)"@]);
        }
        return lines;
    }
    let widths = col_widths(headers, rows);
    let ghost wv = Seq::new(hv.len(), |i: int| spec_col_width(hv, rv, i));
    proof {
        assert(widths@.len() == wv.len());
        assert(forall|j: int| 0 <= j < wv.len() ==> #[trigger] widths@[j] as nat == wv[j]);
    }
    let header_line = padded_line(headers, &widths);
    let mut sep_cells: Vec<String> = Vec::new();
    let mut i: usize = 0;
    while i < widths.len()
        invariant
            i <= widths@.len(),
            sep_cells.deep_view() =~= Seq::new(i as nat, |m: int| spec_dashes(widths@[m] as nat)),
        decreases widths@.len() - i,
    {
        let ghost before = sep_cells.deep_view();
        let cell = dashes(widths[i]);
        let ghost cellv = cell@;
        sep_cells.push(cell);
        i = i + 1;
        proof {
            assert(sep_cells.deep_view() =~= before.push(cellv));
            assert(before.push(cellv) =~= Seq::new(
                i as nat,
                |m: int| spec_dashes(widths@[m] as nat),
            ));
            assert(sep_cells.deep_view() =~= Seq::new(
                i as nat,
                |m: int| spec_dashes(widths@[m] as nat),
            ));
        }
    }
    let sep_line = join_cells(&sep_cells);
    proof {
        assert(Seq::new(wv.len(), |m: int| spec_dashes(wv[m])) =~= Seq::new(
            widths@.len(),
            |m: int| spec_dashes(widths@[m] as nat),
        ));
        assert(sep_line@ == spec_sep_line(wv));
    }
    proof {
        assert(Seq::new(widths@.len(), |i2: int| widths@[i2] as nat) =~= wv);
        assert(header_line@ == spec_row_line(hv, wv));
    }
    let mut lines: Vec<String> = Vec::new();
    let ghost header_view = header_line@;
    let ghost sep_view = sep_line@;
    lines.push(header_line);
    lines.push(sep_line);
    let mut k: usize = 0;
    proof {
        assert(lines.deep_view() =~= seq![header_view, sep_view]);
        assert(seq![header_view, sep_view] =~= seq![spec_row_line(hv, wv), spec_sep_line(wv)]
            + Seq::new(0, |m: int| spec_row_line(rv[m], wv)));
    }
    while k < rows.len()
        invariant
            hv == headers.deep_view(),
            rv == rows.deep_view(),
            k <= rv.len(),
            widths@.len() == wv.len(),
            forall|j: int| 0 <= j < wv.len() ==> #[trigger] widths@[j] as nat == wv[j],
            lines.deep_view() =~= seq![spec_row_line(hv, wv), spec_sep_line(wv)] + Seq::new(
                k as nat,
                |m: int| spec_row_line(rv[m], wv),
            ),
        decreases rv.len() - k,
    {
        let line = padded_line(&rows[k].columns, &widths);
        proof {
            assert(rows[k as int].deep_view() == rv[k as int]);
        }
        let ghost before = lines.deep_view();
        let ghost linev = line@;
        proof {
            assert(Seq::new(widths@.len(), |i2: int| widths@[i2] as nat) =~= wv);
            assert(linev == spec_row_line(rv[k as int], wv));
        }
        lines.push(line);
        k = k + 1;
        proof {
            assert(lines.deep_view() =~= before.push(linev));
            assert(before.push(linev) =~= seq![spec_row_line(hv, wv), spec_sep_line(wv)]
                + Seq::new(k as nat, |m: int| spec_row_line(rv[m], wv)));
            assert(lines.deep_view() =~= seq![spec_row_line(hv, wv), spec_sep_line(wv)] + Seq::new(
                k as nat,
                |m: int| spec_row_line(rv[m], wv),
            ));
        }
    }
    proof {
        assert(Seq::new(rv.len(), |m: int| spec_row_line(rv[m], wv)) =~= Seq::new(
            rv.len(),
            |m: int| spec_row_line(rv[m], wv),
        ));
    }
    lines
}

/// One padded-and-joined line; see `spec_row_line`.
fn padded_line(cells: &Vec<String>, widths: &Vec<usize>) -> (r: String)
    ensures
        r@ == spec_row_line(
            cells.deep_view(),
            Seq::new(widths@.len(), |i: int| widths@[i] as nat),
        ),
{
    let ghost cv = cells.deep_view();
    let ghost wv = Seq::new(widths@.len(), |i: int| widths@[i] as nat);
    let mut padded: Vec<String> = Vec::new();
    let mut i: usize = 0;
    while i < cells.len()
        invariant
            cv == cells.deep_view(),
            wv == Seq::new(widths@.len(), |m: int| widths@[m] as nat),
            i <= cv.len(),
            padded.deep_view() =~= Seq::new(
                i as nat,
                |m: int|
                    spec_pad_right(
                        cv[m],
                        if 0 <= m < wv.len() {
                            wv[m]
                        } else {
                            cv[m].len()
                        },
                    ),
            ),
        decreases cv.len() - i,
    {
        let cell = if i < widths.len() {
            pad_right(cells[i].as_str(), widths[i])
        } else {
            let own = cells[i].as_str().unicode_len();
            pad_right(cells[i].as_str(), own)
        };
        let ghost before = padded.deep_view();
        let ghost cellv = cell@;
        padded.push(cell);
        i = i + 1;
        proof {
            assert(padded.deep_view() =~= before.push(cellv));
            assert(padded.deep_view() =~= Seq::new(
                i as nat,
                |m: int|
                    spec_pad_right(
                        cv[m],
                        if 0 <= m < wv.len() {
                            wv[m]
                        } else {
                            cv[m].len()
                        },
                    ),
            ));
        }
    }
    let line = join_cells(&padded);
    proof {
        assert(Seq::new(
            i as nat,
            |m: int|
                spec_pad_right(
                    cv[m],
                    if 0 <= m < wv.len() {
                        wv[m]
                    } else {
                        cv[m].len()
                    },
                ),
        ) =~= Seq::new(
            cv.len(),
            |m: int|
                spec_pad_right(
                    cv[m],
                    if 0 <= m < wv.len() {
                        wv[m]
                    } else {
                        cv[m].len()
                    },
                ),
        ));
    }
    line
}

} // verus!
