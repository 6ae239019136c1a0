//! Hit testing: from a pointer coordinate back to a document position.
//!
//! The pointer is compared with the cells of the grid walk. All comparisons
//! are made exactly, on cross-multiplied integers, so a pointer that lies on a
//! cell edge is on that edge and not beside it.

use crate::geometry::{
    normalized_floor, spec_normalized_floor, Metrics, Point, GRID_UNIT, MAX_CELL_SIZE, MAX_EXTENT,
};
use crate::layout::{spec_inlays_height, BlockInlay, Layout};
use crate::line::{spec_wrap_count, Line, WrappedElement};
use crate::text::{Affinity, Position};
use crate::walk::{spec_cell_in_bounds, Cell, CellKind};
use vstd::prelude::*;

verus! {

/// The pointer's x distance from the document origin, in device units times `GRID_UNIT`.
pub open spec fn spec_probe_x(metrics: Metrics, p: Point) -> int {
    (p.x - metrics.origin.x) * GRID_UNIT
}

/// The pointer's y distance from the document origin, in device units times `GRID_UNIT`.
pub open spec fn spec_probe_y(metrics: Metrics, p: Point) -> int {
    (p.y - metrics.origin.y) * GRID_UNIT
}

/// Whether the probe `q` lies between the normalized coordinates `lo` and `hi`, both
/// inclusive, along an axis whose cell measures `cell` device units.
pub open spec fn spec_within(lo: int, hi: int, q: int, cell: int) -> bool {
    lo * cell <= q <= hi * cell
}

/// What a pointer at `p` hits in `cell`, a cell of line `line_index` whose top lies at the
/// normalized y `top`.
///
/// Only cells in whose row band the pointer lies can be hit. The left half of a grapheme
/// gives the offset before it with affinity `After`, the right half the offset behind it with
/// `Before`; a pointer exactly in the middle belongs to the left half. Inlay text gives the
/// offset at which it is anchored, a wrap break and the end of the line give their offset
/// wherever the pointer is in the row, and a widget is never hit.
pub open spec fn spec_cell_hit(
    line: &Line,
    line_index: int,
    top: int,
    cell: Cell,
    metrics: Metrics,
    p: Point,
) -> Option<(Position, Affinity)> {
    let qx = spec_probe_x(metrics, p);
    let qy = spec_probe_y(metrics, p);
    let start_x = line.spec_x(cell.column as int);
    let end_x = line.spec_x(cell.column + cell.column_count);
    let start_y = top + line.spec_y(cell.row as int);
    let end_y = start_y + line.scale;
    let in_row = spec_within(start_y, end_y, qy, metrics.cell_height as int);
    let at_start = Position { line_index: line_index as usize, byte_index: cell.byte_index };
    let at_end = Position {
        line_index: line_index as usize,
        byte_index: (cell.byte_index + cell.byte_len) as usize,
    };
    match cell.kind {
        CellKind::Grapheme => {
            if in_row && spec_within(2 * start_x, start_x + end_x, 2 * qx, metrics.cell_width as int) {
                Some((at_start, Affinity::After))
            } else if in_row && spec_within(
                start_x + end_x,
                2 * end_x,
                2 * qx,
                metrics.cell_width as int,
            ) {
                Some((at_end, Affinity::Before))
            } else {
                None
            }
        },
        CellKind::Inlay => {
            if in_row && spec_within(start_x, end_x, qx, metrics.cell_width as int) {
                Some((at_start, Affinity::Before))
            } else {
                None
            }
        },
        CellKind::Widget => None,
        CellKind::Wrap => {
            if in_row {
                Some((at_start, Affinity::Before))
            } else {
                None
            }
        },
        CellKind::End => {
            if in_row {
                Some((at_start, Affinity::After))
            } else {
                None
            }
        },
    }
}

/// The hit of the first cell from index `from` on that the pointer hits.
pub open spec fn spec_pick_cells(
    line: &Line,
    line_index: int,
    top: int,
    cells: Seq<Cell>,
    from: int,
    metrics: Metrics,
    p: Point,
) -> Option<(Position, Affinity)>
    decreases cells.len() - from,
{
    if 0 <= from < cells.len() {
        match spec_cell_hit(line, line_index, top, cells[from], metrics, p) {
            Some(hit) => Some(hit),
            None => spec_pick_cells(line, line_index, top, cells, from + 1, metrics, p),
        }
    } else {
        None
    }
}

/// What a pointer at `p` hits in the line `line_index` whose top lies at `top`.
pub open spec fn spec_pick_line(
    line: &Line,
    line_index: int,
    top: int,
    metrics: Metrics,
    p: Point,
) -> Option<(Position, Affinity)> {
    spec_pick_cells(line, line_index, top, line.spec_cells(), 0, metrics, p)
}

/// What a pointer at `p` hits among the inlays from index `from` on, the first of them lying
/// at `top`, and then in the line `line` below them. An inlay line is hit anywhere in its
/// height and gives the start of the line; an inlay widget is never hit.
pub open spec fn spec_pick_blocks(
    inlays: Seq<BlockInlay>,
    from: int,
    line: &Line,
    line_index: int,
    top: int,
    metrics: Metrics,
    p: Point,
) -> Option<(Position, Affinity)>
    decreases inlays.len() - from,
{
    if 0 <= from < inlays.len() {
        let bottom = top + inlays[from].spec_height();
        if inlays[from] is Line && spec_within(
            top,
            bottom,
            spec_probe_y(metrics, p),
            metrics.cell_height as int,
        ) {
            Some((Position { line_index: line_index as usize, byte_index: 0 }, Affinity::Before))
        } else {
            spec_pick_blocks(inlays, from + 1, line, line_index, bottom, metrics, p)
        }
    } else {
        spec_pick_line(line, line_index, top, metrics, p)
    }
}

/// The pointer's normalized y, rounded down and kept within `[-1, MAX_EXTENT]`.
pub open spec fn spec_normalized_y(metrics: Metrics, p: Point) -> int {
    spec_normalized_floor(p.y - metrics.origin.y, metrics.cell_height as int)
}

/// What a pointer at `p` hits in the document: the hit in the one line, with its inlays,
/// that the pointer's y selects. `None` for a pointer outside all row bands of that line.
pub open spec fn spec_pick(layout: &Layout, metrics: Metrics, p: Point) -> Option<
    (Position, Affinity),
> {
    let index = layout.spec_first_line_ending_after(spec_normalized_y(metrics, p));
    if layout.entries@.len() == 0 {
        None
    } else {
        let entry = layout.entries@[index];
        spec_pick_blocks(entry.inlays@, 0, &entry.line, index, entry.y as int, metrics, p)
    }
}

/// The product of two bounded numbers is bounded by the product of the bounds.
proof fn lemma_mul_bound(a: int, b: int, a_max: int, b_max: int)
    requires
        0 <= a <= a_max,
        0 <= b <= b_max,
    ensures
        0 <= a * b <= a_max * b_max,
{
    assert(0 <= a * b <= a_max * b_max) by (nonlinear_arith)
        requires
            0 <= a <= a_max,
            0 <= b <= b_max,
    ;
}

/// Whether the probe `q` lies between the normalized coordinates `lo` and `hi`, both
/// inclusive, along an axis whose cell measures `cell` device units.
pub fn within(lo: u64, hi: u64, q: i128, cell: u64) -> (r: bool)
    requires
        lo <= 4 * MAX_EXTENT,
        hi <= 4 * MAX_EXTENT,
        cell <= MAX_CELL_SIZE,
    ensures
        r == spec_within(lo as int, hi as int, q as int, cell as int),
{
    proof {
        lemma_mul_bound(lo as int, cell as int, 4 * MAX_EXTENT as int, MAX_CELL_SIZE as int);
        lemma_mul_bound(hi as int, cell as int, 4 * MAX_EXTENT as int, MAX_CELL_SIZE as int);
    }
    let lo_q: i128 = (lo as i128) * (cell as i128);
    let hi_q: i128 = (hi as i128) * (cell as i128);
    lo_q <= q && q <= hi_q
}

/// The pointer's distances from the document origin, in device units times `GRID_UNIT`.
pub fn probe(metrics: &Metrics, p: Point) -> (q: (i128, i128))
    requires
        metrics.wf(),
    ensures
        q.0 == spec_probe_x(*metrics, p),
        q.1 == spec_probe_y(*metrics, p),
{
    let dx: i128 = (p.x as i128) - (metrics.origin.x as i128);
    let dy: i128 = (p.y as i128) - (metrics.origin.y as i128);
    assert(GRID_UNIT == 1024);
    (dx * 1024, dy * 1024)
}

/// What a pointer with the probe `(qx, qy)` hits in `cell`.
fn cell_hit(
    line: &Line,
    line_index: usize,
    top: u64,
    cell: &Cell,
    metrics: &Metrics,
    qx: i128,
    qy: i128,
    Ghost(p): Ghost<Point>,
) -> (hit: Option<(Position, Affinity)>)
    requires
        line.wf(),
        metrics.wf(),
        top <= MAX_EXTENT,
        spec_cell_in_bounds(*cell),
        qx == spec_probe_x(*metrics, p),
        qy == spec_probe_y(*metrics, p),
    ensures
        hit == spec_cell_hit(line, line_index as int, top as int, *cell, *metrics, p),
{
    let start_y = top + line.row_y(cell.row);
    let end_y = start_y + line.scale;
    if !within(start_y, end_y, qy, metrics.cell_height) {
        return None;
    }
    let at_start = Position { line_index, byte_index: cell.byte_index };
    match cell.kind {
        CellKind::Grapheme => {
            let start_x = line.column_x(cell.column);
            let end_x = line.column_x(cell.column + cell.column_count);
            if within(2 * start_x, start_x + end_x, 2 * qx, metrics.cell_width) {
                Some((at_start, Affinity::After))
            } else if within(start_x + end_x, 2 * end_x, 2 * qx, metrics.cell_width) {
                Some(
                    (
                        Position { line_index, byte_index: cell.byte_index + cell.byte_len },
                        Affinity::Before,
                    ),
                )
            } else {
                None
            }
        },
        CellKind::Inlay => {
            let start_x = line.column_x(cell.column);
            let end_x = line.column_x(cell.column + cell.column_count);
            if within(start_x, end_x, qx, metrics.cell_width) {
                Some((at_start, Affinity::Before))
            } else {
                None
            }
        },
        CellKind::Widget => None,
        CellKind::Wrap => Some((at_start, Affinity::Before)),
        CellKind::End => Some((at_start, Affinity::After)),
    }
}

/// What a pointer at `p` hits in the line `line_index` whose top lies at the normalized y
/// `top`.
pub fn pick_line(line: &Line, line_index: usize, top: u64, metrics: &Metrics, p: Point) -> (hit:
    Option<(Position, Affinity)>)
    requires
        line.wf(),
        metrics.wf(),
        top <= MAX_EXTENT,
    ensures
        hit == spec_pick_line(line, line_index as int, top as int, *metrics, p),
        spec_within(
            top as int,
            top + line.spec_height(),
            spec_probe_y(*metrics, p),
            metrics.cell_height as int,
        ) ==> hit is Some,
{
    proof {
        if spec_within(
            top as int,
            top + line.spec_height(),
            spec_probe_y(*metrics, p),
            metrics.cell_height as int,
        ) {
            lemma_pick_line_hits(line, line_index as int, top as int, *metrics, p);
        }
    }
    let (qx, qy) = probe(metrics, p);
    let cells = line.cells();
    let mut i: usize = 0;
    while i < cells.len()
        invariant
            line.wf(),
            metrics.wf(),
            top <= MAX_EXTENT,
            i <= cells@.len(),
            cells@ == line.spec_cells(),
            forall|k: int| 0 <= k < cells@.len() ==> spec_cell_in_bounds(#[trigger] cells@[k]),
            qx == spec_probe_x(*metrics, p),
            qy == spec_probe_y(*metrics, p),
            spec_pick_line(line, line_index as int, top as int, *metrics, p) == spec_pick_cells(
                line,
                line_index as int,
                top as int,
                cells@,
                i as int,
                *metrics,
                p,
            ),
        decreases cells@.len() - i,
    {
        let hit = cell_hit(line, line_index, top, &cells[i], metrics, qx, qy, Ghost(p));
        if hit.is_some() {
            return hit;
        }
        i = i + 1;
    }
    None
}

/// The pointer's normalized y, rounded down and kept within `[-1, MAX_EXTENT]`.
pub fn normalized_y(metrics: &Metrics, p: Point) -> (y: i64)
    requires
        metrics.wf(),
    ensures
        y == spec_normalized_y(*metrics, p),
{
    normalized_floor((p.y as i128) - (metrics.origin.y as i128), metrics.cell_height)
}

impl Layout {
    /// Whether the y of the pointer lies within the rows of the line that it selects.
    pub open spec fn spec_in_picked_line(&self, metrics: Metrics, p: Point) -> bool {
        let index = self.spec_first_line_ending_after(spec_normalized_y(metrics, p));
        self.entries@.len() > 0 && {
            let entry = self.entries@[index];
            let top = entry.y + spec_inlays_height(entry.inlays@, 0);
            spec_within(
                top,
                top + entry.line.spec_height(),
                spec_probe_y(metrics, p),
                metrics.cell_height as int,
            )
        }
    }

    /// What a pointer at `p` hits in the document, if anything: a position and the side of it
    /// on which the pointer lies.
    ///
    /// Only the line that the pointer's y selects is looked at, together with its inlays.
    /// The result depends on the arguments alone, so the same pointer on the same layout
    /// always gives the same answer. A pointer whose y lies within the rows of that line
    /// always hits something.
    pub fn pick(&self, metrics: &Metrics, p: Point) -> (hit: Option<(Position, Affinity)>)
        requires
            self.wf(),
            metrics.wf(),
        ensures
            hit == spec_pick(self, *metrics, p),
            self.spec_in_picked_line(*metrics, p) ==> hit is Some,
    {
        if self.entries.len() == 0 {
            return None;
        }
        let index = self.find_first_line_ending_after_y(normalized_y(metrics, p));
        let entry = &self.entries[index];
        proof {
            if self.spec_in_picked_line(*metrics, p) {
                lemma_pick_blocks_hits(
                    entry.inlays@,
                    0,
                    &entry.line,
                    index as int,
                    entry.y as int,
                    *metrics,
                    p,
                );
            }
        }
        let (_, qy) = probe(metrics, p);
        let mut top: u64 = entry.y;
        let mut j: usize = 0;
        assert(entry.wf());
        while j < entry.inlays.len()
            invariant
                entry.wf(),
                metrics.wf(),
                j <= entry.inlays@.len(),
                qy == spec_probe_y(*metrics, p),
                top + spec_inlays_height(entry.inlays@, j as int) + entry.line.spec_height()
                    == entry.spec_end(),
                spec_pick(self, *metrics, p) == spec_pick_blocks(
                    entry.inlays@,
                    j as int,
                    &entry.line,
                    index as int,
                    top as int,
                    *metrics,
                    p,
                ),
            decreases entry.inlays@.len() - j,
        {
            let inlay = &entry.inlays[j];
            let bottom = top + inlay.height();
            if let BlockInlay::Line(_) = inlay {
                if within(top, bottom, qy, metrics.cell_height) {
                    return Some((Position { line_index: index, byte_index: 0 }, Affinity::Before));
                }
            }
            top = bottom;
            j = j + 1;
        }
        pick_line(&entry.line, index, top, metrics, p)
    }
}

/// A pointer exactly in the horizontal middle of a grapheme, and in its row, resolves to the
/// left half: the offset before the grapheme, with affinity `After`.
pub proof fn lemma_midpoint_is_left_half(
    line: &Line,
    line_index: int,
    top: int,
    cell: Cell,
    metrics: Metrics,
    p: Point,
)
    requires
        line.wf(),
        metrics.wf(),
        cell.kind == CellKind::Grapheme,
        spec_within(
            top + line.spec_y(cell.row as int),
            top + line.spec_y(cell.row as int) + line.scale,
            spec_probe_y(metrics, p),
            metrics.cell_height as int,
        ),
        2 * spec_probe_x(metrics, p) == (line.spec_x(cell.column as int) + line.spec_x(
            cell.column + cell.column_count,
        )) * metrics.cell_width,
    ensures
        spec_cell_hit(line, line_index, top, cell, metrics, p) == Some(
            (
                Position { line_index: line_index as usize, byte_index: cell.byte_index },
                Affinity::After,
            ),
        ),
{
    let start_x = line.spec_x(cell.column as int);
    let end_x = line.spec_x(cell.column + cell.column_count);
    crate::line::lemma_column_x_monotonic(
        line.scale as int,
        line.fold_column as int,
        cell.column as int,
        cell.column + cell.column_count,
    );
    assert((2 * start_x) * metrics.cell_width <= (start_x + end_x) * metrics.cell_width)
        by (nonlinear_arith)
        requires
            0 <= start_x <= end_x,
            0 <= metrics.cell_width,
    ;
}

/// If the pointer hits the cell at index `k`, the search from `from <= k` finds a hit.
proof fn lemma_pick_cells_finds(
    line: &Line,
    line_index: int,
    top: int,
    cells: Seq<Cell>,
    from: int,
    k: int,
    metrics: Metrics,
    p: Point,
)
    requires
        0 <= from <= k < cells.len(),
        spec_cell_hit(line, line_index, top, cells[k], metrics, p) is Some,
    ensures
        spec_pick_cells(line, line_index, top, cells, from, metrics, p) is Some,
    decreases k - from,
{
    if from < k && spec_cell_hit(line, line_index, top, cells[from], metrics, p) is None {
        lemma_pick_cells_finds(line, line_index, top, cells, from + 1, k, metrics, p);
    }
}

/// Every row that the walk still reaches is closed by a cell of its own: a wrap break, or the
/// end of the line for the last row.
proof fn lemma_row_has_closer(
    elements: Seq<WrappedElement>,
    wrap_indent: int,
    i: int,
    st: crate::walk::WalkState,
    row: int,
) -> (k: int)
    requires
        0 <= i <= elements.len(),
        0 <= st.row <= row <= st.row + spec_wrap_count(elements, i),
        st.row + spec_wrap_count(elements, i) <= usize::MAX,
    ensures
        0 <= k < crate::walk::spec_cells_from(elements, wrap_indent, i, st).len(),
        crate::walk::spec_cells_from(elements, wrap_indent, i, st)[k].row == row,
        crate::walk::spec_cells_from(elements, wrap_indent, i, st)[k].kind == CellKind::Wrap
            || crate::walk::spec_cells_from(elements, wrap_indent, i, st)[k].kind
            == CellKind::End,
    decreases elements.len() - i,
{
    if i >= elements.len() {
        0
    } else {
        let head = crate::walk::spec_element_cells(elements[i], st);
        let next = crate::walk::spec_step(elements[i], st, wrap_indent);
        let tail = crate::walk::spec_cells_from(elements, wrap_indent, i + 1, next);
        if elements[i] is Wrap && row == st.row {
            0
        } else {
            let k = lemma_row_has_closer(elements, wrap_indent, i + 1, next, row);
            assert((head + tail)[head.len() + k] == tail[k]);
            head.len() + k
        }
    }
}

/// A probe within `rows` bands of height `scale` stacked from `top` down lies within one of
/// them.
proof fn lemma_band_exists(top: int, scale: int, rows: int, q: int, cell: int) -> (row: int)
    requires
        1 <= rows,
        0 <= scale,
        0 <= cell,
        spec_within(top, top + rows * scale, q, cell),
    ensures
        0 <= row < rows,
        spec_within(top + row * scale, top + row * scale + scale, q, cell),
    decreases rows,
{
    assert((rows - 1) * scale + scale == rows * scale) by (nonlinear_arith);
    assert(rows == 1 ==> (rows - 1) * scale == 0) by (nonlinear_arith);
    if rows == 1 || (top + (rows - 1) * scale) * cell <= q {
        rows - 1
    } else {
        lemma_band_exists(top, scale, rows - 1, q, cell)
    }
}

/// A pointer whose y lies within the height of a line hits the line, whatever its x.
pub proof fn lemma_pick_line_hits(line: &Line, line_index: int, top: int, metrics: Metrics, p: Point)
    requires
        line.wf(),
        metrics.wf(),
        spec_within(
            top,
            top + line.spec_height(),
            spec_probe_y(metrics, p),
            metrics.cell_height as int,
        ),
    ensures
        spec_pick_line(line, line_index, top, metrics, p) is Some,
{
    let rows = line.spec_row_count() as int;
    let qy = spec_probe_y(metrics, p);
    crate::line::lemma_wrap_count_bound(line.elements@, 0);
    let row = lemma_band_exists(top, line.scale as int, rows, qy, metrics.cell_height as int);
    let k = lemma_row_has_closer(
        line.elements@,
        line.wrap_indent_column_count as int,
        0,
        crate::walk::spec_walk_start(),
        row,
    );
    let cells = line.spec_cells();
    assert(spec_cell_hit(line, line_index, top, cells[k], metrics, p) is Some);
    lemma_pick_cells_finds(line, line_index, top, cells, 0, k, metrics, p);
}

/// A pointer whose y lies within the height of the line that it selects hits the document,
/// whatever its x and whatever inlays lie above the line.
pub proof fn lemma_pick_blocks_hits(
    inlays: Seq<BlockInlay>,
    from: int,
    line: &Line,
    line_index: int,
    top: int,
    metrics: Metrics,
    p: Point,
)
    requires
        0 <= from <= inlays.len(),
        line.wf(),
        metrics.wf(),
        spec_within(
            top + spec_inlays_height(inlays, from),
            top + spec_inlays_height(inlays, from) + line.spec_height(),
            spec_probe_y(metrics, p),
            metrics.cell_height as int,
        ),
    ensures
        spec_pick_blocks(inlays, from, line, line_index, top, metrics, p) is Some,
    decreases inlays.len() - from,
{
    if from < inlays.len() {
        lemma_pick_blocks_hits(
            inlays,
            from + 1,
            line,
            line_index,
            top + inlays[from].spec_height(),
            metrics,
            p,
        );
    } else {
        lemma_pick_line_hits(line, line_index, top, metrics, p);
    }
}

} // verus!
