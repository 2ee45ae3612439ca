//! Verified rendering of left-aligned text tables: every column is as wide
//! as its widest cell (counted in UTF-8 bytes, as `str::len` counts) and
//! cells are padded with spaces (counted in characters, as `{:<w$}` pads).

use vstd::prelude::*;
use vstd::string::*;
use crate::text::{
    byte_len, byte_length, contains_text, joined, lemma_contains_self, lemma_contains_trans, lemma_joined_contains,
    lemma_pad_contains, max_byte_len, pad_right, push_padded,
};

verus! {

broadcast use vstd::string::group_string_axioms;

/// The cells of column `i` of `rows`.
pub open spec fn column(rows: Seq<Seq<Seq<char>>>, i: int) -> Seq<Seq<char>> {
    rows.map_values(|r: Seq<Seq<char>>| r[i])
}

/// Width of column `i`: the byte length of its widest cell, header included.
pub open spec fn column_width(header: Seq<Seq<char>>, rows: Seq<Seq<Seq<char>>>, i: int) -> usize {
    max_byte_len(seq![header[i]] + column(rows, i))
}

/// The widths of all columns.
pub open spec fn column_widths(header: Seq<Seq<char>>, rows: Seq<Seq<Seq<char>>>) -> Seq<usize> {
    Seq::new(header.len(), |i: int| column_width(header, rows, i))
}

/// Cell `i` of a row as rendered: padded to its column's width, except a
/// last cell that is left as it is when `pad_last` is false.
pub open spec fn rendered_cell(cells: Seq<Seq<char>>, widths: Seq<usize>, pad_last: bool, i: int) -> Seq<char> {
    if i == cells.len() - 1 && !pad_last {
        cells[i]
    } else {
        pad_right(cells[i], widths[i] as nat)
    }
}

/// A row: its rendered cells separated by four spaces.
pub open spec fn rendered_row(cells: Seq<Seq<char>>, widths: Seq<usize>, pad_last: bool) -> Seq<char> {
    joined(Seq::new(cells.len(), |i: int| rendered_cell(cells, widths, pad_last, i)), "    "@)
}

/// The whole table: the header row and then each row, one per line.
pub open spec fn rendered_table(header: Seq<Seq<char>>, rows: Seq<Seq<Seq<char>>>, pad_last: bool) -> Seq<char> {
    let widths = column_widths(header, rows);
    joined(
        seq![rendered_row(header, widths, pad_last)] + rows.map_values(
            |r: Seq<Seq<char>>| rendered_row(r, widths, pad_last),
        ),
        "\n"@,
    )
}

pub open spec fn row_views(rows: Seq<Vec<&str>>) -> Seq<Seq<Seq<char>>> {
    rows.map_values(|r: Vec<&str>| str_views(r@))
}

pub open spec fn str_views(v: Seq<&str>) -> Seq<Seq<char>> {
    v.map_values(|s: &str| s@)
}

fn width_of_column(header: &[&str], rows: &[Vec<&str>], i: usize) -> (res: usize)
    requires
        i < header@.len(),
        forall|k: int| 0 <= k < rows@.len() ==> #[trigger] rows@[k]@.len() == header@.len(),
    ensures
        res == column_width(str_views(header@), row_views(rows@), i as int),
{
    let ghost h = str_views(header@);
    let ghost rs = row_views(rows@);
    let mut w = byte_length(header[i]);
    let mut k: usize = 0;
    proof {
        let first = seq![h[i as int]] + column(rs, i as int).take(0);
        assert(first =~= seq![h[i as int]]);
        assert(first.drop_last() =~= Seq::<Seq<char>>::empty());
        assert(h[i as int] == header@[i as int]@);
        assert(max_byte_len(Seq::<Seq<char>>::empty()) == 0);
        assert(first.last() == h[i as int]);
        assert(max_byte_len(first) == byte_len(h[i as int]));
    }
    while k < rows.len()
        invariant
            i < header@.len(),
            h == str_views(header@),
            rs == row_views(rows@),
            forall|k: int| 0 <= k < rows@.len() ==> #[trigger] rows@[k]@.len() == header@.len(),
            k <= rows@.len(),
            w == max_byte_len(seq![h[i as int]] + column(rs, i as int).take(k as int)),
        decreases rows@.len() - k,
    {
        let cell_len = byte_length(rows[k][i]);
        proof {
            assert((seq![h[i as int]] + column(rs, i as int).take(k + 1)).drop_last()
                =~= seq![h[i as int]] + column(rs, i as int).take(k as int));
            assert(rows@[k as int]@.len() == header@.len());
        }
        if cell_len > w {
            w = cell_len;
        }
        k = k + 1;
    }
    proof {
        assert(column(rs, i as int).take(rows@.len() as int) =~= column(rs, i as int));
    }
    w
}

fn push_row(out: &mut String, cells: &[&str], widths: &Vec<usize>, pad_last: bool)
    requires
        cells@.len() >= 1,
        widths@.len() == cells@.len(),
    ensures
        final(out)@ == old(out)@ + rendered_row(str_views(cells@), widths@, pad_last),
{
    let ghost cs = str_views(cells@);
    let ghost all = Seq::new(cs.len(), |i: int| rendered_cell(cs, widths@, pad_last, i));
    let ghost start = out@;
    let mut i: usize = 0;
    while i < cells.len()
        invariant
            cs == str_views(cells@),
            widths@.len() == cells@.len(),
            all == Seq::new(cs.len(), |i: int| rendered_cell(cs, widths@, pad_last, i)),
            i <= cells@.len(),
            out@ == start + joined(all.take(i as int), "    "@),
        decreases cells@.len() - i,
    {
        proof {
            assert(all.take(i + 1).drop_last() =~= all.take(i as int));
        }
        if i > 0 {
            out.append("    ");
        }
        let ghost before = out@;
        if i + 1 == cells.len() && !pad_last {
            out.append(cells[i]);
        } else {
            push_padded(out, cells[i], widths[i]);
        }
        proof {
            assert(out@ == before + all[i as int]);
            if i == 0 {
                assert(all.take(1) =~= seq![all[0]]);
            }
        }
        i = i + 1;
    }
    proof {
        assert(all.take(cells@.len() as int) =~= all);
    }
}


/// Renders `rows` under `header` as a table (see `rendered_table`).
pub fn format_table(header: &[&str], rows: &[Vec<&str>], pad_last: bool) -> (res: String)
    requires
        header@.len() >= 1,
        forall|k: int| 0 <= k < rows@.len() ==> #[trigger] rows@[k]@.len() == header@.len(),
    ensures
        res@ == rendered_table(str_views(header@), row_views(rows@), pad_last),
{
    let ghost h = str_views(header@);
    let ghost rs = row_views(rows@);
    let mut widths: Vec<usize> = Vec::new();
    let mut i: usize = 0;
    while i < header.len()
        invariant
            h == str_views(header@),
            rs == row_views(rows@),
            forall|k: int| 0 <= k < rows@.len() ==> #[trigger] rows@[k]@.len() == header@.len(),
            i <= header@.len(),
            widths@ == column_widths(h, rs).take(i as int),
        decreases header@.len() - i,
    {
        let w = width_of_column(header, rows, i);
        widths.push(w);
        proof {
            assert(widths@ =~= column_widths(h, rs).take(i + 1));
        }
        i = i + 1;
    }
    proof {
        assert(widths@ =~= column_widths(h, rs));
    }
    let ghost lines = seq![rendered_row(h, widths@, pad_last)] + rs.map_values(
        |r: Seq<Seq<char>>| rendered_row(r, widths@, pad_last),
    );
    let mut out = String::new();
    push_row(&mut out, header, &widths, pad_last);
    proof {
        assert(lines.take(1) =~= seq![lines[0]]);
        assert(out@ =~= joined(lines.take(1), "\n"@));
    }
    let mut k: usize = 0;
    while k < rows.len()
        invariant
            h == str_views(header@),
            rs == row_views(rows@),
            forall|k: int| 0 <= k < rows@.len() ==> #[trigger] rows@[k]@.len() == header@.len(),
            widths@ == column_widths(h, rs),
            header@.len() >= 1,
            lines == seq![rendered_row(h, widths@, pad_last)] + rs.map_values(
                |r: Seq<Seq<char>>| rendered_row(r, widths@, pad_last),
            ),
            k <= rows@.len(),
            out@ == joined(lines.take(k + 1), "\n"@),
        decreases rows@.len() - k,
    {
        out.append("\n");
        assert(rows@[k as int]@.len() == header@.len());
        push_row(&mut out, rows[k].as_slice(), &widths, pad_last);
        proof {
            assert(lines.take(k + 2).drop_last() =~= lines.take(k + 1));
            assert(rs[k as int] == str_views(rows@[k as int]@));
            assert(lines[k + 1] == rendered_row(rs[k as int], widths@, pad_last));
        }
        k = k + 1;
    }
    proof {
        assert(lines.take(rows@.len() as int + 1) =~= lines);
    }
    out
}

proof fn lemma_row_contains_cell(cells: Seq<Seq<char>>, widths: Seq<usize>, pad_last: bool, i: int)
    requires
        0 <= i < cells.len(),
    ensures
        contains_text(rendered_row(cells, widths, pad_last), cells[i]),
{
    let parts = Seq::new(cells.len(), |j: int| rendered_cell(cells, widths, pad_last, j));
    lemma_joined_contains(parts, "    "@, i);
    lemma_pad_contains(cells[i], widths[i] as nat);
    lemma_contains_self(cells[i]);
    lemma_contains_trans(rendered_row(cells, widths, pad_last), parts[i], cells[i]);
}

/// Nothing is lost in a table: every header cell and every cell of every
/// row occurs in the rendered text.
pub proof fn law_table_shows_every_cell(
    header: Seq<Seq<char>>,
    rows: Seq<Seq<Seq<char>>>,
    pad_last: bool,
    r: int,
    i: int,
)
    requires
        forall|k: int| 0 <= k < rows.len() ==> #[trigger] rows[k].len() == header.len(),
        0 <= i < header.len(),
        -1 <= r < rows.len(),
    ensures
        contains_text(rendered_table(header, rows, pad_last), if r == -1 { header[i] } else { rows[r][i] }),
{
    let widths = column_widths(header, rows);
    let lines = seq![rendered_row(header, widths, pad_last)] + rows.map_values(
        |row: Seq<Seq<char>>| rendered_row(row, widths, pad_last),
    );
    let cells = if r == -1 { header } else { rows[r] };
    lemma_row_contains_cell(cells, widths, pad_last, i);
    assert(lines[r + 1] == rendered_row(cells, widths, pad_last));
    lemma_joined_contains(lines, "\n"@, r + 1);
    lemma_contains_trans(rendered_table(header, rows, pad_last), lines[r + 1], cells[i]);
}

/// Every cell is padded to the width of its column, except a last cell
/// left bare: where the cells of a column are as long in characters as in
/// bytes (plain ASCII), all of its padded cells have the same length, so
/// the columns line up.
pub proof fn law_table_columns_align(
    header: Seq<Seq<char>>,
    rows: Seq<Seq<Seq<char>>>,
    pad_last: bool,
    r: int,
    i: int,
)
    requires
        forall|k: int| 0 <= k < rows.len() ==> #[trigger] rows[k].len() == header.len(),
        0 <= i < header.len(),
        0 <= r < rows.len(),
        i < header.len() - 1 || pad_last,
        byte_len(rows[r][i]) == rows[r][i].len(),
    ensures
        rendered_cell(rows[r], column_widths(header, rows), pad_last, i).len() == column_width(header, rows, i),
{
    let col = seq![header[i]] + column(rows, i);
    assert(col[r + 1] == rows[r][i]);
    lemma_max_byte_len_bound(col, r + 1);
}

proof fn lemma_max_byte_len_bound(cols: Seq<Seq<char>>, k: int)
    requires
        0 <= k < cols.len(),
    ensures
        byte_len(cols[k]) <= max_byte_len(cols),
    decreases cols.len(),
{
    if k < cols.len() - 1 {
        assert(cols.drop_last()[k] == cols[k]);
        lemma_max_byte_len_bound(cols.drop_last(), k);
    }
}

} // verus!
