//! The grid walk: every line is turned into the sequence of cells that its
//! elements occupy, each with its row, column and byte offset. Hit testing and
//! the selection layer both read this one sequence, so they cannot drift
//! apart.

use crate::geometry::MAX_LINE_SPAN;
use crate::line::{spec_total_bytes, spec_total_width, Line, WrappedElement};
use crate::text::{
    grapheme_len, grapheme_width, lemma_column_count_bound, lemma_grapheme_len_bound,
    spec_column_count, spec_grapheme_len, spec_grapheme_width, column_count,
};
use vstd::prelude::*;

verus! {

/// What occupies a cell.
#[derive(Clone, Copy, Debug, PartialEq, Eq, Structural)]
pub enum CellKind {
    /// One grapheme of the line's own text.
    Grapheme,
    /// A whole run of inlay text.
    Inlay,
    /// An embedded widget.
    Widget,
    /// A wrap break: the right edge of a row that continues below.
    Wrap,
    /// The end of the line.
    End,
}

/// One stop of the grid walk.
#[derive(Clone, Copy, Debug, PartialEq, Eq, Structural)]
pub struct Cell {
    pub kind: CellKind,
    /// Byte offset in the line at which the cell starts.
    pub byte_index: usize,
    /// Bytes of the line that the cell covers; zero for all but graphemes.
    pub byte_len: usize,
    pub row: usize,
    /// Column of the cell's left edge.
    pub column: usize,
    /// Width of the cell in columns; zero for wrap breaks and the end of the line.
    pub column_count: usize,
}

/// Where the walk stands.
pub struct WalkState {
    pub byte: int,
    pub row: int,
    pub column: int,
}

/// The cell of kind `kind` at `st`.
pub open spec fn spec_cell(kind: CellKind, st: WalkState, byte_len: int, column_count: int) -> Cell {
    Cell {
        kind,
        byte_index: st.byte as usize,
        byte_len: byte_len as usize,
        row: st.row as usize,
        column: st.column as usize,
        column_count: column_count as usize,
    }
}

/// The grapheme cells of `text` from offset `pos` on, the walk standing at `st`.
pub open spec fn spec_text_cells(text: Seq<u8>, pos: int, st: WalkState) -> Seq<Cell>
    decreases text.len() - pos,
{
    if 0 <= pos < text.len() {
        let len = spec_grapheme_len(text, pos);
        let width = spec_grapheme_width(text, pos, len) as int;
        proof {
            lemma_grapheme_len_bound(text, pos);
        }
        seq![spec_cell(CellKind::Grapheme, st, len, width)] + spec_text_cells(
            text,
            pos + len,
            WalkState { byte: st.byte + len, row: st.row, column: st.column + width },
        )
    } else {
        Seq::empty()
    }
}

/// The cells of element `e`, the walk standing at `st`.
pub open spec fn spec_element_cells(e: WrappedElement, st: WalkState) -> Seq<Cell> {
    match e {
        WrappedElement::Text { is_inlay: false, text } => spec_text_cells(text@, 0, st),
        WrappedElement::Text { is_inlay: true, text } => seq![
            spec_cell(CellKind::Inlay, st, 0, spec_column_count(text@, 0) as int),
        ],
        WrappedElement::Widget { column_count } => seq![
            spec_cell(CellKind::Widget, st, 0, column_count as int),
        ],
        WrappedElement::Wrap => seq![spec_cell(CellKind::Wrap, st, 0, 0)],
    }
}

/// Where the walk stands after element `e`: text moves it right and, unless it is inlay
/// text, on in the line's bytes; a widget moves it right; a wrap break moves it to the wrap
/// indent column of the next row.
pub open spec fn spec_step(e: WrappedElement, st: WalkState, wrap_indent: int) -> WalkState {
    match e {
        WrappedElement::Text { is_inlay: false, text } => WalkState {
            byte: st.byte + text@.len(),
            row: st.row,
            column: st.column + spec_column_count(text@, 0),
        },
        WrappedElement::Text { is_inlay: true, text } => WalkState {
            byte: st.byte,
            row: st.row,
            column: st.column + spec_column_count(text@, 0),
        },
        WrappedElement::Widget { column_count } => WalkState {
            byte: st.byte,
            row: st.row,
            column: st.column + column_count,
        },
        WrappedElement::Wrap => WalkState { byte: st.byte, row: st.row + 1, column: wrap_indent },
    }
}

/// The cells of the elements from index `i` on, followed by the end-of-line cell.
pub open spec fn spec_cells_from(
    elements: Seq<WrappedElement>,
    wrap_indent: int,
    i: int,
    st: WalkState,
) -> Seq<Cell>
    decreases elements.len() - i,
{
    if 0 <= i < elements.len() {
        spec_element_cells(elements[i], st) + spec_cells_from(
            elements,
            wrap_indent,
            i + 1,
            spec_step(elements[i], st, wrap_indent),
        )
    } else {
        seq![spec_cell(CellKind::End, st, 0, 0)]
    }
}

/// The start of a line.
pub open spec fn spec_walk_start() -> WalkState {
    WalkState { byte: 0, row: 0, column: 0 }
}

/// Every cell lies within the span that a well-formed line can have.
pub open spec fn spec_cell_in_bounds(c: Cell) -> bool {
    &&& c.row <= MAX_LINE_SPAN
    &&& c.column + c.column_count <= MAX_LINE_SPAN
    &&& c.byte_index + c.byte_len <= MAX_LINE_SPAN
}

/// Whether `next` stands where the walk is after `cell`: behind a wrap break at the wrap
/// indent of the row below, behind any other cell in the same row, further right by the
/// width of the cell and further on in the line by its bytes.
pub open spec fn spec_cell_follows(cell: Cell, next: Cell, wrap_indent: int) -> bool {
    if cell.kind == CellKind::Wrap {
        &&& next.row == cell.row + 1
        &&& next.column == wrap_indent
        &&& next.byte_index == cell.byte_index
    } else {
        &&& next.row == cell.row
        &&& next.column == cell.column + cell.column_count
        &&& next.byte_index == cell.byte_index + cell.byte_len
    }
}

/// A grapheme covers at least one byte and one column. No other cell covers bytes, and wrap
/// breaks and the end of the line have no width.
pub open spec fn spec_cell_shape(cell: Cell) -> bool {
    match cell.kind {
        CellKind::Grapheme => cell.byte_len >= 1 && cell.column_count >= 1,
        CellKind::Inlay => cell.byte_len == 0,
        CellKind::Widget => cell.byte_len == 0,
        CellKind::Wrap => cell.byte_len == 0 && cell.column_count == 0,
        CellKind::End => cell.byte_len == 0 && cell.column_count == 0,
    }
}

/// The cells form one unbroken walk: the first stands at the start of the line, each next
/// one stands where the walk is after the one before it, and the end-of-line cell is the
/// last cell and no other.
pub open spec fn spec_unbroken(cells: Seq<Cell>, wrap_indent: int) -> bool {
    &&& cells.len() >= 1
    &&& cells[0].byte_index == 0 && cells[0].row == 0 && cells[0].column == 0
    &&& cells[cells.len() - 1].kind == CellKind::End
    &&& forall|k: int| 0 <= k < cells.len() ==> #[trigger] spec_cell_shape(cells[k])
    &&& forall|k: int|
        0 <= k < cells.len() - 1 ==> #[trigger] spec_cell_follows(
            cells[k],
            cells[k + 1],
            wrap_indent,
        ) && cells[k].kind != CellKind::End
}

/// The widths of the cells with the indices `[from, to)` added up.
pub open spec fn spec_columns_sum(cells: Seq<Cell>, from: int, to: int) -> int
    decreases to - from,
{
    if 0 <= from < to <= cells.len() {
        cells[from].column_count + spec_columns_sum(cells, from + 1, to)
    } else {
        0
    }
}

/// Within a row the column advances add up: a cell lies as many columns to the right of an
/// earlier cell of its row as the cells from the earlier one up to it are wide together.
pub proof fn lemma_row_columns_add_up(cells: Seq<Cell>, wrap_indent: int, from: int, to: int)
    requires
        spec_unbroken(cells, wrap_indent),
        0 <= from <= to < cells.len(),
        forall|k: int| from <= k < to ==> (#[trigger] cells[k]).kind != CellKind::Wrap,
    ensures
        cells[to].row == cells[from].row,
        cells[to].column == cells[from].column + spec_columns_sum(cells, from, to),
    decreases to - from,
{
    if from < to {
        assert(cells[from].kind != CellKind::Wrap);
        assert(spec_cell_follows(cells[from], cells[from + 1], wrap_indent));
        lemma_row_columns_add_up(cells, wrap_indent, from + 1, to);
    }
}

/// The cells built so far form an unbroken walk that now stands at (`byte`, `row`,
/// `column`).
spec fn spec_walk_so_far(
    cells: Seq<Cell>,
    wrap_indent: int,
    byte: int,
    row: int,
    column: int,
) -> bool {
    &&& forall|k: int|
        0 <= k < cells.len() ==> #[trigger] spec_cell_shape(cells[k]) && cells[k].kind
            != CellKind::End
    &&& forall|k: int|
        0 <= k < cells.len() - 1 ==> #[trigger] spec_cell_follows(
            cells[k],
            cells[k + 1],
            wrap_indent,
        )
    &&& cells.len() == 0 ==> byte == 0 && row == 0 && column == 0
    &&& cells.len() > 0 ==> cells[0].byte_index == 0 && cells[0].row == 0 && cells[0].column
        == 0 && spec_cell_follows(
        cells[cells.len() - 1],
        Cell {
            kind: CellKind::End,
            byte_index: byte as usize,
            byte_len: 0,
            row: row as usize,
            column: column as usize,
            column_count: 0,
        },
        wrap_indent,
    )
}

/// Where the walk stands after `cell`.
spec fn spec_after_cell(cell: Cell, wrap_indent: int) -> WalkState {
    if cell.kind == CellKind::Wrap {
        WalkState { byte: cell.byte_index as int, row: cell.row + 1, column: wrap_indent }
    } else {
        WalkState {
            byte: cell.byte_index + cell.byte_len,
            row: cell.row as int,
            column: cell.column + cell.column_count,
        }
    }
}

/// An unbroken walk stays unbroken when the cell at which it stands is appended.
proof fn lemma_walk_push(before: Seq<Cell>, cell: Cell, wrap_indent: int)
    requires
        spec_walk_so_far(
            before,
            wrap_indent,
            cell.byte_index as int,
            cell.row as int,
            cell.column as int,
        ),
        cell.kind != CellKind::End,
        spec_cell_shape(cell),
        spec_cell_in_bounds(cell),
        cell.row + 1 <= usize::MAX,
        0 <= wrap_indent <= usize::MAX,
    ensures
        spec_walk_so_far(
            before.push(cell),
            wrap_indent,
            spec_after_cell(cell, wrap_indent).byte,
            spec_after_cell(cell, wrap_indent).row,
            spec_after_cell(cell, wrap_indent).column,
        ),
{
    let after = before.push(cell);
    assert forall|k: int| 0 <= k < after.len() - 1 implies #[trigger] spec_cell_follows(
        after[k],
        after[k + 1],
        wrap_indent,
    ) by {
        assert(after[k] == before[k]);
        if k < before.len() - 1 {
            assert(after[k + 1] == before[k + 1]);
            assert(spec_cell_follows(before[k], before[k + 1], wrap_indent));
        } else {
            assert(after[k + 1] == cell);
        }
    }
    assert forall|k: int| 0 <= k < after.len() implies #[trigger] spec_cell_shape(after[k])
        && after[k].kind != CellKind::End by {
        if k < before.len() {
            assert(after[k] == before[k]);
            assert(spec_cell_shape(before[k]));
        }
    }
    assert(after[after.len() - 1] == cell);
    if before.len() > 0 {
        assert(after[0] == before[0]);
    }
}

/// Appends `cell`, which stands where the walk is, to the cells built so far.
fn push_cell(cells: &mut Vec<Cell>, cell: Cell, Ghost(wrap_indent): Ghost<int>)
    requires
        spec_walk_so_far(
            old(cells)@,
            wrap_indent,
            cell.byte_index as int,
            cell.row as int,
            cell.column as int,
        ),
        cell.kind != CellKind::End,
        spec_cell_shape(cell),
        spec_cell_in_bounds(cell),
        cell.row + 1 <= usize::MAX,
        0 <= wrap_indent <= usize::MAX,
        forall|k: int| 0 <= k < old(cells)@.len() ==> spec_cell_in_bounds(#[trigger] old(cells)@[k]),
    ensures
        final(cells)@ == old(cells)@.push(cell),
        spec_walk_so_far(
            final(cells)@,
            wrap_indent,
            spec_after_cell(cell, wrap_indent).byte,
            spec_after_cell(cell, wrap_indent).row,
            spec_after_cell(cell, wrap_indent).column,
        ),
        forall|k: int| 0 <= k < final(cells)@.len() ==> spec_cell_in_bounds(#[trigger] final(cells)@[k]),
{
    cells.push(cell);
    proof {
        lemma_walk_push(old(cells)@, cell, wrap_indent);
    }
}

/// Appends the grapheme cells of `text` and moves the walk past them.
fn push_text_cells(
    cells: &mut Vec<Cell>,
    text: &[u8],
    byte: &mut usize,
    row: usize,
    column: &mut usize,
    Ghost(wrap_indent): Ghost<int>,
)
    requires
        spec_walk_so_far(
            old(cells)@,
            wrap_indent,
            *old(byte) as int,
            row as int,
            *old(column) as int,
        ),
        0 <= wrap_indent <= usize::MAX,
        row <= MAX_LINE_SPAN,
        *old(byte) + text@.len() <= MAX_LINE_SPAN,
        *old(column) + spec_column_count(text@, 0) <= MAX_LINE_SPAN,
        forall|k: int| 0 <= k < old(cells)@.len() ==> spec_cell_in_bounds(#[trigger] old(cells)@[k]),
    ensures
        final(cells)@ == old(cells)@ + spec_text_cells(
            text@,
            0,
            WalkState { byte: *old(byte) as int, row: row as int, column: *old(column) as int },
        ),
        *final(byte) == *old(byte) + text@.len(),
        *final(column) == *old(column) + spec_column_count(text@, 0),
        spec_walk_so_far(
            final(cells)@,
            wrap_indent,
            *final(byte) as int,
            row as int,
            *final(column) as int,
        ),
        forall|k: int| 0 <= k < final(cells)@.len() ==> spec_cell_in_bounds(#[trigger] final(cells)@[k]),
{
    let ghost st = WalkState { byte: *byte as int, row: row as int, column: *column as int };
    let ghost all = spec_text_cells(text@, 0, st);
    let mut pos: usize = 0;
    while pos < text.len()
        invariant
            pos <= text@.len(),
            0 <= wrap_indent <= usize::MAX,
            row <= MAX_LINE_SPAN,
            *byte == *old(byte) + pos,
            *old(byte) + text@.len() <= MAX_LINE_SPAN,
            *column + spec_column_count(text@, pos as int) == *old(column) + spec_column_count(
                text@,
                0,
            ),
            *old(column) + spec_column_count(text@, 0) <= MAX_LINE_SPAN,
            old(cells)@ + all == cells@ + spec_text_cells(
                text@,
                pos as int,
                WalkState { byte: *byte as int, row: row as int, column: *column as int },
            ),
            spec_walk_so_far(cells@, wrap_indent, *byte as int, row as int, *column as int),
            forall|k: int| 0 <= k < cells@.len() ==> spec_cell_in_bounds(#[trigger] cells@[k]),
        decreases text@.len() - pos,
    {
        let len = grapheme_len(text, pos);
        let width = grapheme_width(text, pos, len);
        push_cell(
            cells,
            Cell {
                kind: CellKind::Grapheme,
                byte_index: *byte,
                byte_len: len,
                row,
                column: *column,
                column_count: width,
            },
            Ghost(wrap_indent),
        );
        *byte = *byte + len;
        *column = *column + width;
        pos = pos + len;
        assert(old(cells)@ + all =~= cells@ + spec_text_cells(
            text@,
            pos as int,
            WalkState { byte: *byte as int, row: row as int, column: *column as int },
        ));
    }
    assert(old(cells)@ + all =~= cells@);
}

impl Line {
    /// The cells of the line in walk order. The last one is the end-of-line cell.
    pub open spec fn spec_cells(&self) -> Seq<Cell> {
        spec_cells_from(
            self.elements@,
            self.wrap_indent_column_count as int,
            0,
            spec_walk_start(),
        )
    }

    /// The cells of the line in walk order. They form one unbroken walk that ends with the
    /// end-of-line cell.
    pub fn cells(&self) -> (cells: Vec<Cell>)
        requires
            self.wf(),
        ensures
            cells@ == self.spec_cells(),
            cells@.len() >= 1,
            forall|k: int| 0 <= k < cells@.len() ==> spec_cell_in_bounds(#[trigger] cells@[k]),
            spec_unbroken(cells@, self.wrap_indent_column_count as int),
    {
        let mut cells: Vec<Cell> = Vec::new();
        let mut byte: usize = 0;
        let mut row: usize = 0;
        let mut column: usize = 0;
        let mut i: usize = 0;
        let ghost elements = self.elements@;
        let ghost wrap_indent = self.wrap_indent_column_count as int;
        while i < self.elements.len()
            invariant
                self.wf(),
                elements == self.elements@,
                wrap_indent == self.wrap_indent_column_count,
                i <= elements.len(),
                column + spec_total_width(elements, i as int) <= wrap_indent + spec_total_width(
                    elements,
                    0,
                ),
                spec_total_width(elements, i as int) <= spec_total_width(elements, 0),
                byte + spec_total_bytes(elements, i as int) <= spec_total_bytes(elements, 0),
                row <= i,
                self.spec_cells() == cells@ + spec_cells_from(
                    elements,
                    wrap_indent,
                    i as int,
                    WalkState { byte: byte as int, row: row as int, column: column as int },
                ),
                forall|k: int| 0 <= k < cells@.len() ==> spec_cell_in_bounds(#[trigger] cells@[k]),
                spec_walk_so_far(cells@, wrap_indent, byte as int, row as int, column as int),
            decreases elements.len() - i,
        {
            match &self.elements[i] {
                WrappedElement::Text { is_inlay: false, text } => {
                    push_text_cells(
                        &mut cells,
                        text.as_slice(),
                        &mut byte,
                        row,
                        &mut column,
                        Ghost(wrap_indent),
                    );
                },
                WrappedElement::Text { is_inlay: true, text } => {
                    proof {
                        lemma_column_count_bound(text@, 0);
                    }
                    let width = column_count(text.as_slice());
                    push_cell(
                        &mut cells,
                        Cell {
                            kind: CellKind::Inlay,
                            byte_index: byte,
                            byte_len: 0,
                            row,
                            column,
                            column_count: width,
                        },
                        Ghost(wrap_indent),
                    );
                    column = column + width;
                },
                WrappedElement::Widget { column_count } => {
                    push_cell(
                        &mut cells,
                        Cell {
                            kind: CellKind::Widget,
                            byte_index: byte,
                            byte_len: 0,
                            row,
                            column,
                            column_count: *column_count,
                        },
                        Ghost(wrap_indent),
                    );
                    column = column + *column_count;
                },
                WrappedElement::Wrap => {
                    push_cell(
                        &mut cells,
                        Cell {
                            kind: CellKind::Wrap,
                            byte_index: byte,
                            byte_len: 0,
                            row,
                            column,
                            column_count: 0,
                        },
                        Ghost(wrap_indent),
                    );
                    column = self.wrap_indent_column_count;
                    row = row + 1;
                },
            }
            i = i + 1;
            assert(self.spec_cells() =~= cells@ + spec_cells_from(
                elements,
                wrap_indent,
                i as int,
                WalkState { byte: byte as int, row: row as int, column: column as int },
            ));
        }
        let ghost before = cells@;
        cells.push(
            Cell { kind: CellKind::End, byte_index: byte, byte_len: 0, row, column, column_count: 0 },
        );
        assert(cells@ =~= self.spec_cells());
        proof {
            let after = cells@;
            assert forall|k: int| 0 <= k < after.len() - 1 implies #[trigger] spec_cell_follows(
                after[k],
                after[k + 1],
                wrap_indent,
            ) && after[k].kind != CellKind::End by {
                assert(after[k] == before[k]);
                assert(spec_cell_shape(before[k]));
                if k < before.len() - 1 {
                    assert(after[k + 1] == before[k + 1]);
                    assert(spec_cell_follows(before[k], before[k + 1], wrap_indent));
                } else {
                    assert(after[k + 1] == Cell {
                        kind: CellKind::End,
                        byte_index: byte,
                        byte_len: 0,
                        row,
                        column,
                        column_count: 0,
                    });
                }
            }
            assert forall|k: int| 0 <= k < after.len() implies #[trigger] spec_cell_shape(
                after[k],
            ) by {
                if k < before.len() {
                    assert(after[k] == before[k]);
                    assert(spec_cell_shape(before[k]));
                }
            }
            assert(after[after.len() - 1].kind == CellKind::End);
            if before.len() > 0 {
                assert(after[0] == before[0]);
            }
        }
        cells
    }
}

/// The rightmost column that the cells from index `from` on reach.
pub open spec fn spec_max_column(cells: Seq<Cell>, from: int) -> int
    decreases cells.len() - from,
{
    if 0 <= from < cells.len() {
        let right = cells[from].column + cells[from].column_count;
        let rest = spec_max_column(cells, from + 1);
        if right >= rest {
            right
        } else {
            rest
        }
    } else {
        0
    }
}

impl Line {
    /// Width of the widest row, in normalized units.
    pub open spec fn spec_width(&self) -> int {
        self.spec_x(spec_max_column(self.spec_cells(), 0))
    }

    /// Width of the widest row, in normalized units.
    pub fn width(&self) -> (w: u64)
        requires
            self.wf(),
        ensures
            w == self.spec_width(),
            w <= MAX_LINE_SPAN * crate::geometry::GRID_UNIT,
    {
        let cells = self.cells();
        let mut widest: usize = 0;
        let mut i: usize = cells.len();
        while i > 0
            invariant
                i <= cells@.len(),
                widest == spec_max_column(cells@, i as int),
                widest <= MAX_LINE_SPAN,
                forall|k: int| 0 <= k < cells@.len() ==> spec_cell_in_bounds(#[trigger] cells@[k]),
            decreases i,
        {
            i = i - 1;
            assert(spec_cell_in_bounds(cells@[i as int]));
            let right = cells[i].column + cells[i].column_count;
            if right >= widest {
                widest = right;
            }
        }
        self.column_x(widest)
    }
}

} // verus!
