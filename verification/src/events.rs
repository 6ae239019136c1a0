//! The boundary enumerator: a line's cells turned into the events that the
//! selection renderer reacts to. Every grapheme boundary is an event, with the
//! document position it stands for and the place where it lies on screen, and
//! so is every row break and the end of the line.

use crate::geometry::{MAX_DOCUMENT_HEIGHT, MAX_EXTENT, MAX_LINE_SPAN};
use crate::layout::{spec_blocks_height, spec_line_blocks, BlockElement};
use crate::line::Line;
use crate::text::{Affinity, Cursor, Position};
use crate::walk::{
    spec_cell_follows, spec_cell_in_bounds, spec_cell_shape, spec_unbroken, Cell, CellKind,
};
use vstd::prelude::*;

verus! {

/// A place in a row: a normalized x and the row's vertical band, in document coordinates.
#[derive(Clone, Copy, Debug, PartialEq, Eq, Structural)]
pub struct Place {
    pub x: u64,
    pub top: u64,
    pub bottom: u64,
}

/// One event of the walk along the visible lines.
#[derive(Clone, Copy, Debug, PartialEq, Eq, Structural)]
pub enum Event {
    /// A boundary at which a selection can start or end.
    Boundary { cursor: Cursor, place: Place },
    /// The right edge of a row that a wrap break ends; the flow goes on at `next_x` in the
    /// row below.
    RowBreak { place: Place, next_x: u64 },
    /// One column past the end of a line: the right edge of what stands for its newline.
    LineEnd { place: Place },
}

impl Place {
    pub open spec fn wf(self) -> bool {
        self.x <= MAX_EXTENT && self.top <= self.bottom <= MAX_EXTENT
    }
}

impl Event {
    pub open spec fn wf(self) -> bool {
        match self {
            Event::Boundary { place, .. } => place.wf(),
            Event::RowBreak { place, next_x } => place.wf() && next_x <= MAX_EXTENT,
            Event::LineEnd { place } => place.wf(),
        }
    }

    /// Whether the event ends a row.
    pub open spec fn spec_is_break(self) -> bool {
        self is RowBreak || self is LineEnd
    }
}

/// The place of `column` in `row` of a line whose top lies at `top`.
pub open spec fn spec_place(line: &Line, top: int, row: int, column: int) -> Place {
    Place {
        x: line.spec_x(column) as u64,
        top: (top + line.spec_y(row)) as u64,
        bottom: (top + line.spec_y(row) + line.scale) as u64,
    }
}

/// The boundary of line `line_index` at byte `byte` with affinity `affinity`.
pub open spec fn spec_cursor(line_index: int, byte: int, affinity: Affinity) -> Cursor {
    Cursor {
        position: Position { line_index: line_index as usize, byte_index: byte as usize },
        affinity,
    }
}

/// The events of one cell. A grapheme gives the boundary at its left edge, with affinity
/// `After`, and the one at its right edge, with `Before`. Inlay text and widgets give none.
/// A wrap break gives a row break. The end of the line gives a last `After` boundary and
/// then the line end, one column further right.
pub open spec fn spec_cell_events(line: &Line, line_index: int, top: int, cell: Cell) -> Seq<Event> {
    let row = cell.row as int;
    let column = cell.column as int;
    match cell.kind {
        CellKind::Grapheme => seq![
            Event::Boundary {
                cursor: spec_cursor(line_index, cell.byte_index as int, Affinity::After),
                place: spec_place(line, top, row, column),
            },
            Event::Boundary {
                cursor: spec_cursor(line_index, cell.byte_index + cell.byte_len, Affinity::Before),
                place: spec_place(line, top, row, column + cell.column_count),
            },
        ],
        CellKind::Inlay => Seq::empty(),
        CellKind::Widget => Seq::empty(),
        CellKind::Wrap => seq![
            Event::RowBreak {
                place: spec_place(line, top, row, column),
                next_x: line.spec_x(line.wrap_indent_column_count as int) as u64,
            },
        ],
        CellKind::End => seq![
            Event::Boundary {
                cursor: spec_cursor(line_index, cell.byte_index as int, Affinity::After),
                place: spec_place(line, top, row, column),
            },
            Event::LineEnd { place: spec_place(line, top, row, column + 1) },
        ],
    }
}

/// The events of the cells from index `from` on.
pub open spec fn spec_cells_events(
    line: &Line,
    line_index: int,
    top: int,
    cells: Seq<Cell>,
    from: int,
) -> Seq<Event>
    decreases cells.len() - from,
{
    if 0 <= from < cells.len() {
        spec_cell_events(line, line_index, top, cells[from]) + spec_cells_events(
            line,
            line_index,
            top,
            cells,
            from + 1,
        )
    } else {
        Seq::empty()
    }
}

/// The events of a line: the `Before` boundary at its start, then the events of its cells.
pub open spec fn spec_line_events(line: &Line, line_index: int, top: int) -> Seq<Event> {
    seq![
        Event::Boundary {
            cursor: spec_cursor(line_index, 0, Affinity::Before),
            place: spec_place(line, top, 0, 0),
        },
    ] + spec_cells_events(line, line_index, top, line.spec_cells(), 0)
}

/// The boundaries among `events` come in walk order: each lies strictly behind every
/// boundary before it.
pub open spec fn spec_boundaries_increase(events: Seq<Event>) -> bool {
    forall|a: int, b: int|
        0 <= a < b < events.len() ==> ((#[trigger] events[a]) matches Event::Boundary {
            cursor: first,
            ..
        } ==> ((#[trigger] events[b]) matches Event::Boundary { cursor: second, .. }
            ==> first.spec_lt(second)))
}

/// The boundaries among `events` from index `base` on belong to line `line_index`, come in
/// walk order, and none lies behind `last`.
#[verifier::opaque]
pub open spec fn spec_sorted_from(
    events: Seq<Event>,
    base: int,
    line_index: int,
    last: Cursor,
) -> bool {
    &&& forall|a: int, b: int|
        base <= a < b < events.len() ==> ((#[trigger] events[a]) matches Event::Boundary {
            cursor: first,
            ..
        } ==> ((#[trigger] events[b]) matches Event::Boundary { cursor: second, .. }
            ==> first.spec_lt(second)))
    &&& forall|a: int|
        base <= a < events.len() ==> ((#[trigger] events[a]) matches Event::Boundary {
            cursor,
            ..
        } ==> cursor.spec_le(last) && cursor.position.line_index == line_index)
}

/// Appends the boundary `cursor`, which lies behind every boundary appended since `base`.
fn push_boundary(
    events: &mut Vec<Event>,
    cursor: Cursor,
    place: Place,
    Ghost(base): Ghost<int>,
    Ghost(last): Ghost<Cursor>,
)
    requires
        place.wf(),
        0 <= base <= old(events)@.len(),
        spec_sorted_from(old(events)@, base, cursor.position.line_index as int, last),
        base == old(events)@.len() || last.spec_lt(cursor),
        forall|k: int| 0 <= k < old(events)@.len() ==> (#[trigger] old(events)@[k]).wf(),
    ensures
        final(events)@ == old(events)@.push(Event::Boundary { cursor, place }),
        spec_sorted_from(final(events)@, base, cursor.position.line_index as int, cursor),
        forall|k: int| 0 <= k < final(events)@.len() ==> (#[trigger] final(events)@[k]).wf(),
{
    events.push(Event::Boundary { cursor, place });
    proof {
        reveal(spec_sorted_from);
        let before = old(events)@;
        let after = events@;
        assert forall|a: int, b: int| base <= a < b < after.len() implies ((
        #[trigger] after[a]) matches Event::Boundary { cursor: first, .. } ==> ((
        #[trigger] after[b]) matches Event::Boundary { cursor: second, .. } ==> first.spec_lt(
            second,
        ))) by {
            assert(after[a] == before[a]);
            if b < before.len() {
                assert(after[b] == before[b]);
            }
        }
        assert forall|a: int| base <= a < after.len() implies ((
        #[trigger] after[a]) matches Event::Boundary { cursor: c, .. } ==> c.spec_le(cursor)
            && c.position.line_index == cursor.position.line_index) by {
            if a < before.len() {
                assert(after[a] == before[a]);
            }
        }
    }
}

/// Appends `event`, which is no boundary.
fn push_break(
    events: &mut Vec<Event>,
    event: Event,
    Ghost(base): Ghost<int>,
    Ghost(line_index): Ghost<int>,
    Ghost(last): Ghost<Cursor>,
)
    requires
        event.wf(),
        event.spec_is_break(),
        0 <= base <= old(events)@.len(),
        spec_sorted_from(old(events)@, base, line_index, last),
        forall|k: int| 0 <= k < old(events)@.len() ==> (#[trigger] old(events)@[k]).wf(),
    ensures
        final(events)@ == old(events)@.push(event),
        spec_sorted_from(final(events)@, base, line_index, last),
        forall|k: int| 0 <= k < final(events)@.len() ==> (#[trigger] final(events)@[k]).wf(),
{
    events.push(event);
    proof {
        reveal(spec_sorted_from);
        let before = old(events)@;
        let after = events@;
        assert forall|a: int, b: int| base <= a < b < after.len() implies ((
        #[trigger] after[a]) matches Event::Boundary { cursor: first, .. } ==> ((
        #[trigger] after[b]) matches Event::Boundary { cursor: second, .. } ==> first.spec_lt(
            second,
        ))) by {
            assert(after[a] == before[a]);
            if b < before.len() {
                assert(after[b] == before[b]);
            }
        }
        assert forall|a: int| base <= a < after.len() implies ((
        #[trigger] after[a]) matches Event::Boundary { cursor: c, .. } ==> c.spec_le(last)
            && c.position.line_index == line_index) by {
            if a < before.len() {
                assert(after[a] == before[a]);
            }
        }
    }
}

/// The place of `column` in `row` of a line whose top lies at `top`.
pub fn place(line: &Line, top: u64, row: usize, column: usize) -> (p: Place)
    requires
        line.wf(),
        top <= MAX_DOCUMENT_HEIGHT,
        row <= MAX_LINE_SPAN,
        column <= MAX_LINE_SPAN + 1,
    ensures
        p == spec_place(line, top as int, row as int, column as int),
        p.wf(),
{
    let x = line.column_x(column);
    let y = top + line.row_y(row);
    Place { x, top: y, bottom: y + line.scale }
}

/// Appends the events of `cell` and returns the last boundary appended since `base`.
fn push_cell_events(
    line: &Line,
    line_index: usize,
    top: u64,
    cell: Cell,
    events: &mut Vec<Event>,
    Ghost(base): Ghost<int>,
    Ghost(last): Ghost<Cursor>,
) -> (next: Ghost<Cursor>)
    requires
        line.wf(),
        top <= MAX_DOCUMENT_HEIGHT,
        spec_cell_in_bounds(cell),
        spec_cell_shape(cell),
        0 <= base <= old(events)@.len(),
        forall|k: int| 0 <= k < old(events)@.len() ==> (#[trigger] old(events)@[k]).wf(),
        spec_sorted_from(old(events)@, base, line_index as int, last),
        last.position.line_index == line_index,
        last.position.byte_index <= cell.byte_index,
        last.position.byte_index == cell.byte_index ==> last.affinity == Affinity::Before,
    ensures
        final(events)@ == old(events)@ + spec_cell_events(
            line,
            line_index as int,
            top as int,
            cell,
        ),
        forall|k: int| 0 <= k < final(events)@.len() ==> (#[trigger] final(events)@[k]).wf(),
        spec_sorted_from(final(events)@, base, line_index as int, next@),
        next@.position.line_index == line_index,
        next@.position.byte_index <= MAX_LINE_SPAN,
        cell.kind != CellKind::End ==> next@.position.byte_index <= cell.byte_index
            + cell.byte_len && (next@.position.byte_index == cell.byte_index + cell.byte_len
            ==> next@.affinity == Affinity::Before),
{
    let ghost mut next = last;
    match cell.kind {
        CellKind::Grapheme => {
            let left = Cursor {
                position: Position { line_index, byte_index: cell.byte_index },
                affinity: Affinity::After,
            };
            let right = Cursor {
                position: Position { line_index, byte_index: cell.byte_index + cell.byte_len },
                affinity: Affinity::Before,
            };
            push_boundary(
                events,
                left,
                place(line, top, cell.row, cell.column),
                Ghost(base),
                Ghost(last),
            );
            push_boundary(
                events,
                right,
                place(line, top, cell.row, cell.column + cell.column_count),
                Ghost(base),
                Ghost(left),
            );
            proof {
                next = right;
            }
        },
        CellKind::Inlay => {},
        CellKind::Widget => {},
        CellKind::Wrap => {
            push_break(
                events,
                Event::RowBreak {
                    place: place(line, top, cell.row, cell.column),
                    next_x: line.column_x(line.wrap_indent_column_count),
                },
                Ghost(base),
                Ghost(line_index as int),
                Ghost(last),
            );
        },
        CellKind::End => {
            let end = Cursor {
                position: Position { line_index, byte_index: cell.byte_index },
                affinity: Affinity::After,
            };
            push_boundary(
                events,
                end,
                place(line, top, cell.row, cell.column),
                Ghost(base),
                Ghost(last),
            );
            push_break(
                events,
                Event::LineEnd { place: place(line, top, cell.row, cell.column + 1) },
                Ghost(base),
                Ghost(line_index as int),
                Ghost(end),
            );
            proof {
                next = end;
            }
        },
    }
    assert(events@ =~= old(events)@ + spec_cell_events(
        line,
        line_index as int,
        top as int,
        cell,
    ));
    Ghost(next)
}

/// Appends the events of the line `line_index`, whose top lies at `top`, to `events`. The
/// boundaries among them belong to that line and come in walk order.
pub fn line_events(line: &Line, line_index: usize, top: u64, events: &mut Vec<Event>)
    requires
        line.wf(),
        top <= MAX_DOCUMENT_HEIGHT,
        forall|k: int| 0 <= k < old(events)@.len() ==> (#[trigger] old(events)@[k]).wf(),
    ensures
        final(events)@ == old(events)@ + spec_line_events(line, line_index as int, top as int),
        forall|k: int| 0 <= k < final(events)@.len() ==> (#[trigger] final(events)@[k]).wf(),
        spec_sorted_from(
            spec_line_events(line, line_index as int, top as int),
            0,
            line_index as int,
            spec_cursor(line_index as int, MAX_LINE_SPAN as int, Affinity::After),
        ),
{
    let cells = line.cells();
    let ghost all = spec_line_events(line, line_index as int, top as int);
    let ghost base = events@.len() as int;
    let ghost wrap_indent = line.wrap_indent_column_count as int;
    let ghost limit = spec_cursor(line_index as int, MAX_LINE_SPAN as int, Affinity::After);
    let first = Cursor {
        position: Position { line_index, byte_index: 0 },
        affinity: Affinity::Before,
    };
    proof {
        reveal(spec_sorted_from);
    }
    push_boundary(events, first, place(line, top, 0, 0), Ghost(base), Ghost(first));
    let ghost mut last = first;
    let mut i: usize = 0;
    while i < cells.len()
        invariant
            line.wf(),
            top <= MAX_DOCUMENT_HEIGHT,
            i <= cells@.len(),
            cells@ == line.spec_cells(),
            wrap_indent == line.wrap_indent_column_count,
            spec_unbroken(cells@, wrap_indent),
            forall|k: int| 0 <= k < cells@.len() ==> spec_cell_in_bounds(#[trigger] cells@[k]),
            old(events)@ + all == events@ + spec_cells_events(
                line,
                line_index as int,
                top as int,
                cells@,
                i as int,
            ),
            forall|k: int| 0 <= k < events@.len() ==> (#[trigger] events@[k]).wf(),
            base == old(events)@.len(),
            base <= events@.len(),
            spec_sorted_from(events@, base, line_index as int, last),
            last.position.line_index == line_index,
            last.position.byte_index <= MAX_LINE_SPAN,
            i < cells@.len() ==> last.position.byte_index <= cells@[i as int].byte_index && (
            last.position.byte_index == cells@[i as int].byte_index ==> last.affinity
                == Affinity::Before),
        decreases cells@.len() - i,
    {
        let cell = cells[i];
        assert(spec_cell_in_bounds(cell));
        assert(spec_cell_shape(cell));
        proof {
            if i + 1 < cells@.len() {
                assert(spec_cell_follows(cells@[i as int], cells@[i + 1], wrap_indent));
                assert(cells@[i as int].kind != CellKind::End);
            }
        }
        let next = push_cell_events(line, line_index, top, cell, events, Ghost(base), Ghost(last));
        proof {
            last = next@;
        }
        i = i + 1;
        assert(old(events)@ + all =~= events@ + spec_cells_events(
            line,
            line_index as int,
            top as int,
            cells@,
            i as int,
        ));
    }
    assert(old(events)@ + all =~= events@);
    proof {
        reveal(spec_sorted_from);
        assert forall|a: int, b: int| 0 <= a < b < all.len() implies ((
        #[trigger] all[a]) matches Event::Boundary { cursor: first, .. } ==> ((
        #[trigger] all[b]) matches Event::Boundary { cursor: second, .. } ==> first.spec_lt(
            second,
        ))) by {
            assert(all[a] == events@[base + a]);
            assert(all[b] == events@[base + b]);
        }
        assert forall|k: int| 0 <= k < all.len() implies ((
        #[trigger] all[k]) matches Event::Boundary { cursor, .. } ==> cursor.spec_le(limit)
            && cursor.position.line_index == line_index) by {
            assert(all[k] == events@[base + k]);
        }
    }
}

/// The events of the blocks from index `b` on. The first of them lies at the normalized y
/// `top`, and the next line of the document among them has the index `line_index`. Only
/// lines of the document have events; inlay lines and widgets only take up their height.
pub open spec fn spec_block_events<'a>(
    blocks: Seq<BlockElement<'a>>,
    b: int,
    line_index: int,
    top: int,
) -> Seq<Event>
    decreases blocks.len() - b,
{
    if 0 <= b < blocks.len() {
        match blocks[b] {
            BlockElement::Line { is_inlay: false, line } => spec_line_events(line, line_index, top)
                + spec_block_events(blocks, b + 1, line_index + 1, top + line.spec_height()),
            _ => spec_block_events(blocks, b + 1, line_index, top + blocks[b].spec_height()),
        }
    } else {
        Seq::empty()
    }
}

/// Every boundary among `events` belongs to a line before `line_bound`.
pub open spec fn spec_lines_below(events: Seq<Event>, line_bound: int) -> bool {
    forall|a: int|
        0 <= a < events.len() ==> ((#[trigger] events[a]) matches Event::Boundary { cursor, .. }
            ==> cursor.position.line_index < line_bound)
}

/// Boundaries in walk order stay in walk order when the events of a later line follow them.
proof fn lemma_append_line_events(
    events: Seq<Event>,
    line: Seq<Event>,
    line_index: int,
    last: Cursor,
)
    requires
        spec_boundaries_increase(events),
        spec_lines_below(events, line_index),
        spec_sorted_from(line, 0, line_index, last),
    ensures
        spec_boundaries_increase(events + line),
        spec_lines_below(events + line, line_index + 1),
{
    reveal(spec_sorted_from);
    let all = events + line;
    assert forall|a: int, b: int| 0 <= a < b < all.len() implies ((
    #[trigger] all[a]) matches Event::Boundary { cursor: first, .. } ==> ((
    #[trigger] all[b]) matches Event::Boundary { cursor: second, .. } ==> first.spec_lt(
        second,
    ))) by {
        if b < events.len() {
            assert(all[a] == events[a]);
            assert(all[b] == events[b]);
        } else if a < events.len() {
            assert(all[a] == events[a]);
            assert(all[b] == line[b - events.len()]);
        } else {
            assert(all[a] == line[a - events.len()]);
            assert(all[b] == line[b - events.len()]);
        }
    }
    assert forall|a: int| 0 <= a < all.len() implies ((
    #[trigger] all[a]) matches Event::Boundary { cursor, .. } ==> cursor.position.line_index
        < line_index + 1) by {
        if a < events.len() {
            assert(all[a] == events[a]);
        } else {
            assert(all[a] == line[a - events.len()]);
        }
    }
}

/// The events of `blocks`. The first block lies at the normalized y `origin_y`, and the first
/// line of the document among the blocks has the index `line_start`. The boundaries among
/// the events come in walk order.
pub fn block_events(blocks: &Vec<BlockElement<'_>>, line_start: usize, origin_y: u64) -> (events:
    Vec<Event>)
    requires
        forall|b: int| 0 <= b < blocks@.len() ==> (#[trigger] blocks@[b]).wf(),
        origin_y + spec_blocks_height(blocks@, 0) <= MAX_DOCUMENT_HEIGHT,
        line_start + spec_line_blocks(blocks@, 0) <= usize::MAX,
    ensures
        events@ == spec_block_events(blocks@, 0, line_start as int, origin_y as int),
        forall|k: int| 0 <= k < events@.len() ==> (#[trigger] events@[k]).wf(),
        spec_boundaries_increase(events@),
{
    let mut events: Vec<Event> = Vec::new();
    let mut line_index: usize = line_start;
    let mut top: u64 = origin_y;
    let mut b: usize = 0;
    let ghost all = spec_block_events(blocks@, 0, line_start as int, origin_y as int);
    while b < blocks.len()
        invariant
            forall|k: int| 0 <= k < blocks@.len() ==> (#[trigger] blocks@[k]).wf(),
            b <= blocks@.len(),
            top + spec_blocks_height(blocks@, b as int) <= MAX_DOCUMENT_HEIGHT,
            line_index + spec_line_blocks(blocks@, b as int) <= usize::MAX,
            forall|k: int| 0 <= k < events@.len() ==> (#[trigger] events@[k]).wf(),
            all == events@ + spec_block_events(blocks@, b as int, line_index as int, top as int),
            spec_boundaries_increase(events@),
            spec_lines_below(events@, line_index as int),
        decreases blocks@.len() - b,
    {
        assert(blocks@[b as int].wf());
        match &blocks[b] {
            BlockElement::Line { is_inlay: false, line } => {
                let ghost before = events@;
                line_events(line, line_index, top, &mut events);
                proof {
                    lemma_append_line_events(
                        before,
                        spec_line_events(line, line_index as int, top as int),
                        line_index as int,
                        spec_cursor(line_index as int, MAX_LINE_SPAN as int, Affinity::After),
                    );
                }
                line_index = line_index + 1;
            },
            _ => {},
        }
        top = top + blocks[b].height();
        b = b + 1;
        assert(all =~= events@ + spec_block_events(
            blocks@,
            b as int,
            line_index as int,
            top as int,
        ));
    }
    assert(all =~= events@);
    events
}

} // verus!
