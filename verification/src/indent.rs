//! The indent guide renderer: a vertical guide at every tab stop within the
//! indent of every row of the visible lines.

use crate::geometry::{Metrics, Rect, MAX_DOCUMENT_HEIGHT, MAX_LINE_SPAN};
use crate::layout::{spec_blocks_height, BlockElement};
use crate::line::Line;
use vstd::prelude::*;

verus! {

/// The guides of `row` at the tab stops from `column` on: one at every `tab` columns, as long
/// as the stop lies within the indent. Each guide is as high as one row of the line.
pub open spec fn spec_row_guides(
    line: &Line,
    metrics: Metrics,
    top: int,
    row: int,
    column: int,
    tab: int,
) -> Seq<Rect>
    decreases
            (if column < line.indent_column_count {
                line.indent_column_count - column
            } else {
                0
            }),
{
    if 0 <= column < line.indent_column_count && tab > 0 {
        seq![
            metrics.spec_stroke(
                line.spec_x(column),
                top + line.spec_y(row),
                top + line.spec_y(row) + line.scale,
            ),
        ] + spec_row_guides(line, metrics, top, row, column + tab, tab)
    } else {
        Seq::empty()
    }
}

/// The guides of the rows of `line` from `row` on.
pub open spec fn spec_line_guides(
    line: &Line,
    metrics: Metrics,
    top: int,
    row: int,
    tab: int,
) -> Seq<Rect>
    decreases line.spec_row_count() - row,
{
    if 0 <= row < line.spec_row_count() {
        spec_row_guides(line, metrics, top, row, 0, tab) + spec_line_guides(
            line,
            metrics,
            top,
            row + 1,
            tab,
        )
    } else {
        Seq::empty()
    }
}

/// The guides of the blocks from index `b` on, the first of them lying at `top`. Only lines
/// of the document have guides; inlay lines and widgets only take up their height.
pub open spec fn spec_indent_guides<'a>(
    metrics: Metrics,
    blocks: Seq<BlockElement<'a>>,
    b: int,
    top: int,
    tab: int,
) -> Seq<Rect>
    decreases blocks.len() - b,
{
    if 0 <= b < blocks.len() {
        (match blocks[b] {
            BlockElement::Line { is_inlay: false, line } => spec_line_guides(
                line,
                metrics,
                top,
                0,
                tab,
            ),
            _ => Seq::empty(),
        }) + spec_indent_guides(metrics, blocks, b + 1, top + blocks[b].spec_height(), tab)
    } else {
        Seq::empty()
    }
}

/// Appends the guides of `line`, whose top lies at `top`.
pub fn draw_line_guides(
    line: &Line,
    metrics: &Metrics,
    top: u64,
    tab_column_count: usize,
    out: &mut Vec<Rect>,
)
    requires
        line.wf(),
        metrics.wf(),
        top <= MAX_DOCUMENT_HEIGHT,
        tab_column_count > 0,
    ensures
        final(out)@ == old(out)@ + spec_line_guides(
            line,
            *metrics,
            top as int,
            0,
            tab_column_count as int,
        ),
{
    let ghost all = spec_line_guides(line, *metrics, top as int, 0, tab_column_count as int);
    let rows = line.row_count();
    let mut row: usize = 0;
    while row < rows
        invariant
            line.wf(),
            metrics.wf(),
            top <= MAX_DOCUMENT_HEIGHT,
            tab_column_count > 0,
            rows == line.spec_row_count(),
            row <= rows <= MAX_LINE_SPAN + 1,
            old(out)@ + all == out@ + spec_line_guides(
                line,
                *metrics,
                top as int,
                row as int,
                tab_column_count as int,
            ),
        decreases rows - row,
    {
        let ghost row_all = spec_row_guides(
            line,
            *metrics,
            top as int,
            row as int,
            0,
            tab_column_count as int,
        );
        let ghost before = out@;
        let y = top + line.row_y(row);
        let mut column: usize = 0;
        let mut more: bool = column < line.indent_column_count;
        while more
            invariant
                line.wf(),
                metrics.wf(),
                tab_column_count > 0,
                row <= MAX_LINE_SPAN,
                y == top + line.spec_y(row as int),
                y <= MAX_DOCUMENT_HEIGHT + MAX_LINE_SPAN * 1024,
                column <= line.indent_column_count,
                more ==> column < line.indent_column_count,
                !more ==> before + row_all == out@,
                more ==> before + row_all == out@ + spec_row_guides(
                    line,
                    *metrics,
                    top as int,
                    row as int,
                    column as int,
                    tab_column_count as int,
                ),
            decreases
                    line.indent_column_count - column + (if more {
                        1int
                    } else {
                        0int
                    }),
        {
            out.push(metrics.stroke(line.column_x(column), y, y + line.scale));
            if tab_column_count >= line.indent_column_count - column {
                assert(before + row_all =~= out@) by {
                    assert(spec_row_guides(
                        line,
                        *metrics,
                        top as int,
                        row as int,
                        column + tab_column_count,
                        tab_column_count as int,
                    ) =~= Seq::<Rect>::empty());
                }
                more = false;
            } else {
                column = column + tab_column_count;
                assert(before + row_all =~= out@ + spec_row_guides(
                    line,
                    *metrics,
                    top as int,
                    row as int,
                    column as int,
                    tab_column_count as int,
                ));
            }
        }
        row = row + 1;
        assert(old(out)@ + all =~= out@ + spec_line_guides(
            line,
            *metrics,
            top as int,
            row as int,
            tab_column_count as int,
        ));
    }
    assert(old(out)@ + all =~= out@);
}

/// The indent guides of `blocks`, the first of which lies at the normalized y `origin_y`,
/// for tab stops every `tab_column_count` columns.
pub fn draw_indent_guide_layer(
    metrics: &Metrics,
    blocks: &Vec<BlockElement<'_>>,
    origin_y: u64,
    tab_column_count: usize,
) -> (guides: Vec<Rect>)
    requires
        metrics.wf(),
        forall|b: int| 0 <= b < blocks@.len() ==> (#[trigger] blocks@[b]).wf(),
        origin_y + spec_blocks_height(blocks@, 0) <= MAX_DOCUMENT_HEIGHT,
        tab_column_count > 0,
    ensures
        guides@ == spec_indent_guides(
            *metrics,
            blocks@,
            0,
            origin_y as int,
            tab_column_count as int,
        ),
{
    let mut guides: Vec<Rect> = Vec::new();
    let mut top: u64 = origin_y;
    let mut b: usize = 0;
    let ghost all = spec_indent_guides(
        *metrics,
        blocks@,
        0,
        origin_y as int,
        tab_column_count as int,
    );
    while b < blocks.len()
        invariant
            metrics.wf(),
            tab_column_count > 0,
            forall|k: int| 0 <= k < blocks@.len() ==> (#[trigger] blocks@[k]).wf(),
            b <= blocks@.len(),
            top + spec_blocks_height(blocks@, b as int) <= MAX_DOCUMENT_HEIGHT,
            all == guides@ + spec_indent_guides(
                *metrics,
                blocks@,
                b as int,
                top as int,
                tab_column_count as int,
            ),
        decreases blocks@.len() - b,
    {
        assert(blocks@[b as int].wf());
        match &blocks[b] {
            BlockElement::Line { is_inlay: false, line } => {
                draw_line_guides(line, metrics, top, tab_column_count, &mut guides);
            },
            _ => {},
        }
        top = top + blocks[b].height();
        b = b + 1;
        assert(all =~= guides@ + spec_indent_guides(
            *metrics,
            blocks@,
            b as int,
            top as int,
            tab_column_count as int,
        ));
    }
    assert(all =~= guides@);
    guides
}

} // verus!
