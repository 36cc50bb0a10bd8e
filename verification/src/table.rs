//! Tables: the width of each column is found in a first pass over all rows,
//! then the rows are written, padded to those widths.
use vstd::prelude::*;
use vstd::utf8::encode_utf8;

use crate::config::AppConfig;
use crate::context::RenderContext;
use crate::node::{AstNode, NodeView};
use crate::output::{Color, OpView, Output, Style};
use crate::text::{
    chars_of, fill, indent, indent_chars, pad_right, push_fill, push_padded_right, push_str,
};

verus! {

/// Number of bytes that `text` takes in UTF-8.
pub open spec fn byte_len(text: Seq<char>) -> usize {
    encode_utf8(text).len() as usize
}

/// The text that stands for a table cell: the literal of its first child, or
/// nothing where the cell is empty or its first child carries no literal.
pub open spec fn cell_text(cell: NodeView) -> Seq<char> {
    if cell.children.len() > 0 {
        match cell.children[0].kind.literal() {
            Some(value) => value,
            None => Seq::empty(),
        }
    } else {
        Seq::empty()
    }
}

/// The width that a cell asks of its column.
pub open spec fn cell_width(cell: NodeView) -> usize {
    byte_len(cell_text(cell))
}

/// The larger of two numbers.
pub open spec fn max_usize(a: usize, b: usize) -> usize {
    if a >= b {
        a
    } else {
        b
    }
}

/// The larger of two numbers.
pub open spec fn max_nat(a: nat, b: nat) -> nat {
    if a >= b {
        a
    } else {
        b
    }
}

/// Number of columns of a table: the length of its longest row.
pub open spec fn column_count(rows: Seq<NodeView>) -> nat
    decreases rows.len(),
{
    if rows.len() == 0 {
        0
    } else {
        max_nat(column_count(rows.drop_last()), rows.last().children.len())
    }
}

/// Width of column `j`: the largest width that a cell of that column asks for.
pub open spec fn column_width(rows: Seq<NodeView>, j: int) -> usize
    decreases rows.len(),
{
    if rows.len() == 0 {
        0
    } else {
        max_usize(
            column_width(rows.drop_last(), j),
            if 0 <= j < rows.last().children.len() {
                cell_width(rows.last().children[j])
            } else {
                0
            },
        )
    }
}

/// The widths of all columns, left to right.
pub open spec fn column_widths(rows: Seq<NodeView>) -> Seq<usize> {
    Seq::new(column_count(rows), |j: int| column_width(rows, j))
}

/// No row is longer than the table has columns.
pub proof fn lemma_row_fits(rows: Seq<NodeView>, i: int)
    requires
        0 <= i < rows.len(),
    ensures
        rows[i].children.len() <= column_count(rows),
    decreases rows.len(),
{
    if i < rows.len() - 1 {
        lemma_row_fits(rows.drop_last(), i);
    }
}

/// A column beyond the last has width zero.
pub proof fn lemma_no_column(rows: Seq<NodeView>, j: int)
    requires
        j >= column_count(rows),
    ensures
        column_width(rows, j) == 0,
    decreases rows.len(),
{
    if rows.len() > 0 {
        lemma_no_column(rows.drop_last(), j);
    }
}

/// The width of a column is the largest width among its cells: no cell of
/// the column is wider, and one of them is exactly that wide.
pub proof fn lemma_column_width_is_max(rows: Seq<NodeView>, j: int)
    requires
        0 <= j < column_count(rows),
    ensures
        forall|r: int|
            0 <= r < rows.len() && j < (#[trigger] rows[r]).children.len() ==> cell_width(
                rows[r].children[j],
            ) <= column_width(rows, j),
        exists|r: int|
            0 <= r < rows.len() && j < (#[trigger] rows[r]).children.len() && cell_width(
                rows[r].children[j],
            ) == column_width(rows, j),
    decreases rows.len(),
{
    let front = rows.drop_last();
    let last = rows.last();
    if j < column_count(front) {
        lemma_column_width_is_max(front, j);
        assert forall|r: int|
            0 <= r < rows.len() && j < (#[trigger] rows[r]).children.len() implies cell_width(
            rows[r].children[j],
        ) <= column_width(rows, j) by {
            if r < rows.len() - 1 {
                assert(rows[r] == front[r]);
            }
        }
        let w = choose|r: int|
            0 <= r < front.len() && j < (#[trigger] front[r]).children.len() && cell_width(
                front[r].children[j],
            ) == column_width(front, j);
        assert(rows[w] == front[w]);
        if j < last.children.len() && cell_width(last.children[j]) > column_width(front, j) {
            assert(rows[rows.len() - 1] == last);
        }
    } else {
        lemma_no_column(front, j);
        assert forall|r: int|
            0 <= r < rows.len() && j < (#[trigger] rows[r]).children.len() implies cell_width(
            rows[r].children[j],
        ) <= column_width(rows, j) by {
            if r < rows.len() - 1 {
                assert(rows[r] == front[r]);
                lemma_row_fits(front, r);
            }
        }
        assert(rows[rows.len() - 1] == last);
    }
}

/// The style of the cell in row `i` and column `j`: the header row stands
/// out, and so does the first column below it.
pub open spec fn cell_style(i: int, j: int) -> Style {
    if i == 0 {
        Style::fg_bold(Color::Red)
    } else if j == 0 {
        Style::fg(Color::Cyan)
    } else {
        Style::fg(Color::White)
    }
}

/// What follows a cell: the border to the next cell or the gap before it.
pub open spec fn cell_gap(cells: Seq<NodeView>, j: int, borders: bool) -> Seq<OpView> {
    if borders {
        if j < cells.len() - 1 {
            seq![OpView::Text(" \u{2502} "@)]
        } else {
            seq![OpView::Text(" \u{2502}"@)]
        }
    } else if j < cells.len() - 1 {
        seq![OpView::Text("  "@)]
    } else {
        Seq::empty()
    }
}

/// The operations that write the cell in row `i` and column `j`.
pub open spec fn cell_ops(
    cells: Seq<NodeView>,
    i: int,
    j: int,
    widths: Seq<usize>,
    borders: bool,
) -> Seq<OpView> {
    seq![
        OpView::SetStyle(cell_style(i, j)),
        OpView::Text(pad_right(cell_text(cells[j]), widths[j] as nat)),
        OpView::Reset,
    ] + cell_gap(cells, j, borders)
}

/// The operations that write the first `k` cells of row `i`.
pub open spec fn cells_ops(
    cells: Seq<NodeView>,
    k: nat,
    i: int,
    widths: Seq<usize>,
    borders: bool,
) -> Seq<OpView>
    decreases k,
{
    if k == 0 {
        Seq::empty()
    } else {
        cells_ops(cells, (k - 1) as nat, i, widths, borders) + cell_ops(
            cells,
            i,
            k - 1,
            widths,
            borders,
        )
    }
}

/// The part of a horizontal border that lies over column `j`.
pub open spec fn border_segment(widths: Seq<usize>, j: int, middle: Seq<char>) -> Seq<OpView> {
    seq![OpView::Text(fill('\u{2500}', widths[j] as nat) + fill('\u{2500}', 2))] + if j
        < widths.len() - 1 {
        seq![OpView::Text(middle)]
    } else {
        Seq::empty()
    }
}

/// The parts of a horizontal border over the first `k` columns.
pub open spec fn border_segments(widths: Seq<usize>, k: nat, middle: Seq<char>) -> Seq<OpView>
    decreases k,
{
    if k == 0 {
        Seq::empty()
    } else {
        border_segments(widths, (k - 1) as nat, middle) + border_segment(widths, k - 1, middle)
    }
}

/// A horizontal border: the indentation, the left corner, one run of line
/// for each column with a joint between two of them, the right corner.
pub open spec fn border_ops(
    widths: Seq<usize>,
    left: Seq<char>,
    middle: Seq<char>,
    right: Seq<char>,
    indent_level: usize,
) -> Seq<OpView> {
    seq![OpView::Text(indent(indent_level as nat)), OpView::Text(left)] + border_segments(
        widths,
        widths.len(),
        middle,
    ) + seq![OpView::Text(right + "\n"@)]
}

/// The border above the first row.
pub open spec fn top_border(widths: Seq<usize>, indent_level: usize) -> Seq<OpView> {
    border_ops(widths, "\u{250c}"@, "\u{252c}"@, "\u{2510}"@, indent_level)
}

/// The border below a row.
pub open spec fn inner_border(widths: Seq<usize>, indent_level: usize) -> Seq<OpView> {
    border_ops(widths, "\u{251c}"@, "\u{253c}"@, "\u{2524}"@, indent_level)
}

/// The border that closes the table.
pub open spec fn bottom_border(widths: Seq<usize>, indent_level: usize) -> Seq<OpView> {
    border_ops(widths, "\u{2514}"@, "\u{2534}"@, "\u{2518}"@, indent_level)
}

/// The operations that write row `i`.
pub open spec fn row_ops(
    rows: Seq<NodeView>,
    i: int,
    widths: Seq<usize>,
    borders: bool,
    indent_level: usize,
) -> Seq<OpView> {
    let cells = rows[i].children;
    (if i == 0 && borders {
        top_border(widths, indent_level)
    } else {
        Seq::empty()
    }) + seq![OpView::Text(indent(indent_level as nat))] + (if borders {
        seq![OpView::Text("\u{2502} "@)]
    } else {
        Seq::empty()
    }) + cells_ops(cells, cells.len(), i, widths, borders) + seq![OpView::Text("\n"@)] + (if borders {
        inner_border(widths, indent_level)
    } else {
        Seq::empty()
    })
}

/// The operations that write the first `k` rows.
pub open spec fn rows_ops(
    rows: Seq<NodeView>,
    k: nat,
    widths: Seq<usize>,
    borders: bool,
    indent_level: usize,
) -> Seq<OpView>
    decreases k,
{
    if k == 0 {
        Seq::empty()
    } else {
        rows_ops(rows, (k - 1) as nat, widths, borders, indent_level) + row_ops(
            rows,
            k - 1,
            widths,
            borders,
            indent_level,
        )
    }
}

/// The operations that write a table whose rows are the children of `table`.
pub open spec fn table_ops(table: NodeView, config: AppConfig, indent_level: usize) -> Seq<OpView> {
    let rows = table.children;
    let widths = column_widths(rows);
    let borders = config.render_table_borders;
    rows_ops(rows, rows.len(), widths, borders, indent_level) + if borders {
        bottom_border(widths, indent_level)
    } else {
        Seq::empty()
    }
}

/// The characters of the text that stands for `cell`.
pub fn cell_chars(cell: &AstNode) -> (v: Vec<char>)
    ensures
        v@ == cell_text(cell@),
{
    proof {
        cell.lemma_view();
    }
    if cell.children.len() > 0 {
        proof {
            cell.children[0].lemma_view();
        }
        match cell.children[0].kind.literal() {
            Some(value) => chars_of(value.as_str()),
            None => Vec::new(),
        }
    } else {
        Vec::new()
    }
}

/// The width that `cell` asks of its column.
pub fn measure_cell(cell: &AstNode) -> (w: usize)
    ensures
        w == cell_width(cell@),
{
    proof {
        cell.lemma_view();
        assert(encode_utf8(Seq::<char>::empty()).len() == 0);
    }
    if cell.children.len() > 0 {
        proof {
            cell.children[0].lemma_view();
        }
        match cell.children[0].kind.literal() {
            Some(value) => value.as_str().len(),
            None => 0,
        }
    } else {
        0
    }
}

/// The width of each column of `table`: the largest width that a cell of the
/// column asks for, where a cell asks for the UTF-8 length of the literal of
/// its first child.
pub fn column_widths_of(table: &AstNode) -> (widths: Vec<usize>)
    ensures
        widths@ == column_widths(table@.children),
        widths@.len() == column_count(table@.children),
        forall|j: int|
            0 <= j < widths@.len() ==> (#[trigger] widths@[j]) == column_width(table@.children, j),
{
    let mut widths: Vec<usize> = Vec::new();
    let ghost rows = table@.children;
    proof {
        table.lemma_view();
        assert(rows.take(0) =~= Seq::<NodeView>::empty());
    }
    let mut r: usize = 0;
    while r < table.children.len()
        invariant
            r <= table.children.len(),
            rows == table@.children,
            rows.len() == table.children@.len(),
            forall|i: int| 0 <= i < rows.len() ==> (#[trigger] rows[i]) == table.children@[i]@,
            widths@.len() == column_count(rows.take(r as int)),
            forall|k: int|
                0 <= k < widths@.len() ==> (#[trigger] widths@[k]) == column_width(
                    rows.take(r as int),
                    k,
                ),
        decreases table.children.len() - r,
    {
        let row = &table.children[r];
        let ghost seen = rows.take(r as int);
        let ghost next = rows.take(r + 1);
        proof {
            row.lemma_view();
            assert(next.drop_last() =~= seen);
            assert(next.last() == row@);
        }
        let mut j: usize = 0;
        while j < row.children.len()
            invariant
                j <= row.children.len(),
                row@.children.len() == row.children@.len(),
                forall|i: int|
                    0 <= i < row.children@.len() ==> (#[trigger] row@.children[i])
                        == row.children@[i]@,
                widths@.len() == max_nat(column_count(seen), j as nat),
                forall|k: int|
                    0 <= k < widths@.len() ==> (#[trigger] widths@[k]) == if k < j {
                        max_usize(column_width(seen, k), cell_width(row@.children[k]))
                    } else {
                        column_width(seen, k)
                    },
            decreases row.children.len() - j,
        {
            let content = measure_cell(&row.children[j]);
            if j >= widths.len() {
                proof {
                    lemma_no_column(seen, j as int);
                }
                widths.push(content);
            } else if content > widths[j] {
                widths.set(j, content);
            }
            j = j + 1;
        }
        proof {
            assert forall|k: int| 0 <= k < widths@.len() implies (#[trigger] widths@[k])
                == column_width(next, k) by {
                if k >= row.children.len() {
                } else {
                }
            }
        }
        r = r + 1;
    }
    proof {
        assert(rows.take(rows.len() as int) =~= rows);
        assert(widths@ =~= column_widths(rows));
    }
    widths
}

/// Writes one horizontal border of a table.
pub fn print_horizontal_border(
    column_widths: &Vec<usize>,
    left: &str,
    middle: &str,
    right: &str,
    indent_level: usize,
    out: &mut Output,
)
    ensures
        final(out)@ == old(out)@ + border_ops(
            column_widths@,
            left@,
            middle@,
            right@,
            indent_level,
        ),
{
    out.text_chars(&indent_chars(indent_level));
    out.text(left);
    let mut i: usize = 0;
    while i < column_widths.len()
        invariant
            i <= column_widths.len(),
            out@ == old(out)@ + seq![
                OpView::Text(indent(indent_level as nat)),
                OpView::Text(left@),
            ] + border_segments(column_widths@, i as nat, middle@),
        decreases column_widths.len() - i,
    {
        let mut line: Vec<char> = Vec::new();
        push_fill(&mut line, '\u{2500}', column_widths[i]);
        push_fill(&mut line, '\u{2500}', 2);
        out.text_chars(&line);
        if i < column_widths.len() - 1 {
            out.text(middle);
        }
        i = i + 1;
    }
    let mut end: Vec<char> = Vec::new();
    push_str(&mut end, right);
    push_str(&mut end, "\n");
    out.text_chars(&end);
}

/// Writes the table whose rows are the children of `node`: each cell padded
/// to the width of its column, with two spaces between columns, or with
/// borders drawn around the cells where the options ask for them.
pub fn render_table(node: &AstNode, ctx: &RenderContext, out: &mut Output)
    ensures
        final(out)@ == old(out)@ + table_ops(node@, ctx.config, ctx.indent_level),
{
    let widths = column_widths_of(node);
    let borders = ctx.config.render_table_borders;
    let level = ctx.indent_level;
    let ghost rows = node@.children;
    proof {
        node.lemma_view();
    }
    let mut i: usize = 0;
    while i < node.children.len()
        invariant
            i <= node.children.len(),
            rows == node@.children,
            rows.len() == node.children@.len(),
            forall|k: int| 0 <= k < rows.len() ==> (#[trigger] rows[k]) == node.children@[k]@,
            widths@ == column_widths(rows),
            borders == ctx.config.render_table_borders,
            level == ctx.indent_level,
            out@ == old(out)@ + rows_ops(rows, i as nat, widths@, borders, level),
        decreases node.children.len() - i,
    {
        let row = &node.children[i];
        let ghost before = out@;
        proof {
            row.lemma_view();
            lemma_row_fits(rows, i as int);
        }
        if i == 0 && borders {
            print_horizontal_border(&widths, "\u{250c}", "\u{252c}", "\u{2510}", level, out);
        }
        out.text_chars(&indent_chars(level));
        if borders {
            out.text("\u{2502} ");
        }
        let ghost head = out@;
        let mut j: usize = 0;
        while j < row.children.len()
            invariant
                j <= row.children.len(),
                row.children@.len() <= widths@.len(),
                row@.children.len() == row.children@.len(),
                forall|k: int|
                    0 <= k < row.children@.len() ==> (#[trigger] row@.children[k])
                        == row.children@[k]@,
                out@ == head + cells_ops(row@.children, j as nat, i as int, widths@, borders),
            decreases row.children.len() - j,
        {
            let style = if i == 0 {
                Style::with_fg_bold(Color::Red)
            } else if j == 0 {
                Style::with_fg(Color::Cyan)
            } else {
                Style::with_fg(Color::White)
            };
            out.style(style);
            let content = cell_chars(&row.children[j]);
            let mut padded: Vec<char> = Vec::new();
            push_padded_right(&mut padded, &content, widths[j]);
            out.text_chars(&padded);
            out.reset();
            if borders {
                if j < row.children.len() - 1 {
                    out.text(" \u{2502} ");
                } else {
                    out.text(" \u{2502}");
                }
            } else if j < row.children.len() - 1 {
                out.text("  ");
            }
            j = j + 1;
        }
        out.text("\n");
        if borders {
            print_horizontal_border(&widths, "\u{251c}", "\u{253c}", "\u{2524}", level, out);
        }
        proof {
            assert(out@ =~= before + row_ops(rows, i as int, widths@, borders, level));
        }
        i = i + 1;
    }
    if borders {
        print_horizontal_border(&widths, "\u{2514}", "\u{2534}", "\u{2518}", level, out);
    }
}

} // verus!
